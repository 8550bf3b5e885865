use pterodactyl_api::account::{
    disable_2fa_error, enable_2fa_error, update_email_error, update_password_error,
};
use pterodactyl_api::backups::BackupParams;
use pterodactyl_api::files::{
    file_contents_endpoint, file_parts, find_copy_name, folder_parts, list_files_endpoint,
    relativize, split_dir_filename, split_filename_extension, PteroFilePermissions,
    PteroFileType,
};
use pterodactyl_api::http::{
    api_base_url, rate_limits_from_headers, translate_error, ErrorResponse, ErrorResponseError,
};
use pterodactyl_api::network::delete_allocation_error;
use pterodactyl_api::schedules::{
    cron_field_all, CronField, CronPart, ScheduleAction, ScheduleParams, TaskParams,
};
use pterodactyl_api::structs::{parse_threads, PowerSignal, ServerState, ServerStatus};
use pterodactyl_api::Error;

fn error_body(codes: &[&str]) -> ErrorResponse {
    ErrorResponse {
        errors: codes
            .iter()
            .map(|c| ErrorResponseError { code: (*c).to_owned() })
            .collect(),
    }
}

#[test]
fn wire_codecs_round_trip() {
    assert_eq!(ServerState::Running.to_wire(), "running");
    assert_eq!(ServerState::from_wire("offline"), Some(ServerState::Offline));
    assert_eq!(ServerState::from_wire("paused"), None);
    assert_eq!(PowerSignal::Kill.to_wire(), "kill");
    assert_eq!(PowerSignal::from_wire("restart"), Some(PowerSignal::Restart));
    assert_eq!(PowerSignal::from_wire("halt"), None);
    assert_eq!(ServerStatus::from_wire("install_failed"), Some(ServerStatus::InstallFailed));
    assert_eq!(ServerStatus::from_wire("unknown"), None);
}

#[test]
fn parses_thread_lists() {
    assert_eq!(parse_threads(None).unwrap(), None);
    assert_eq!(parse_threads(Some("3")).unwrap(), Some(vec![3]));
    assert_eq!(parse_threads(Some("0,2,4")).unwrap(), Some(vec![0, 2, 4]));
    assert!(matches!(parse_threads(Some("")), Err(Error::Json(_))));
    assert!(matches!(parse_threads(Some("1,x")), Err(Error::Json(_))));
}

#[test]
fn translates_http_statuses() {
    assert!(matches!(translate_error(403), Error::PermissionError));
    assert!(matches!(translate_error(404), Error::ResourceNotFound));
    assert!(matches!(translate_error(429), Error::RateLimit));
    assert!(matches!(translate_error(500), Error::Http(500)));
}

#[test]
fn captures_rate_limits_only_when_both_headers_parse() {
    let limits = rate_limits_from_headers(Some("240"), Some("237")).unwrap();
    assert_eq!(limits.limit, 240);
    assert_eq!(limits.limit_remaining, 237);
    assert!(rate_limits_from_headers(None, Some("1")).is_none());
    assert!(rate_limits_from_headers(Some("240"), None).is_none());
    assert!(rate_limits_from_headers(Some("nope"), Some("1")).is_none());
}

#[test]
fn normalizes_the_api_base_url() {
    assert_eq!(api_base_url("https://panel.example"), "https://panel.example/api/client/");
    assert_eq!(api_base_url("https://panel.example/"), "https://panel.example/api/client/");
    assert_eq!(api_base_url(""), "/api/client/");
}

#[test]
fn error_bodies_are_searched_by_code() {
    let body = error_body(&["Alpha", "Beta"]);
    assert!(body.is_error("Beta"));
    assert!(!body.is_error("Gamma"));
}

#[test]
fn account_error_deciders_follow_the_api() {
    let tfa = error_body(&["TwoFactorAuthenticationTokenInvalid"]);
    assert!(matches!(enable_2fa_error(400, &tfa), Some(Error::Invalid2faToken)));
    assert!(enable_2fa_error(500, &tfa).is_none());
    assert!(enable_2fa_error(400, &error_body(&["other"])).is_none());

    assert!(matches!(disable_2fa_error(400), Some(Error::IncorrectPassword)));
    assert!(disable_2fa_error(403).is_none());

    let email = error_body(&["email"]);
    let pw = error_body(&["InvalidPasswordProvidedException"]);
    assert!(matches!(update_email_error(400, &email), Some(Error::InvalidEmail)));
    assert!(matches!(update_email_error(400, &pw), Some(Error::IncorrectPassword)));
    assert!(update_email_error(400, &error_body(&["other"])).is_none());
    assert!(update_email_error(401, &email).is_none());

    assert!(matches!(update_password_error(400), Some(Error::IncorrectPassword)));
    assert!(update_password_error(200).is_none());
}

#[test]
fn allocation_delete_error_decider() {
    let display = error_body(&["DisplayException"]);
    assert!(matches!(delete_allocation_error(400, &display), Some(Error::PrimaryAllocation)));
    assert!(delete_allocation_error(400, &error_body(&["other"])).is_none());
    assert!(delete_allocation_error(404, &display).is_none());
}

#[test]
fn backup_params_build_up() {
    let p = BackupParams::new();
    assert_eq!(p.name, None);
    assert!(!p.is_locked);
    let p = BackupParams::new().with_name("Weekly").set_locked();
    assert_eq!(p.name.as_deref(), Some("Weekly"));
    assert!(p.is_locked);
}

#[test]
fn cron_fields_parse() {
    let f = CronField::parse("*").unwrap();
    assert_eq!(f.parts, vec![CronPart::All { step: 1 }]);
    let f = CronField::parse("*/5").unwrap();
    assert_eq!(f.parts, vec![CronPart::All { step: 5 }]);
    let f = CronField::parse(" 1, 2-5/2 , MON ").unwrap();
    assert_eq!(
        f.parts,
        vec![
            CronPart::Exact(1),
            CronPart::Range { min: 2, max: 5, step: 2 },
            CronPart::Exact(1),
        ]
    );
    let f = CronField::parse("jan-dec").unwrap();
    assert_eq!(f.parts, vec![CronPart::Range { min: 1, max: 12, step: 1 }]);
    let f = CronField::parse("sun").unwrap();
    assert_eq!(f.parts, vec![CronPart::Exact(0)]);
    assert!(matches!(CronField::parse("frob"), Err(Error::Json(_))));
    assert!(matches!(CronField::parse("1/"), Err(Error::Json(_))));
    assert!(matches!(CronField::parse(""), Err(Error::Json(_))));
}

#[test]
fn cron_ranges_are_not_validated() {
    let f = CronField::parse("7-3").unwrap();
    assert_eq!(f.parts, vec![CronPart::Range { min: 7, max: 3, step: 1 }]);
}

#[test]
fn cron_fields_serialize() {
    let f = CronField {
        parts: vec![
            CronPart::All { step: 1 },
            CronPart::Range { min: 1, max: 5, step: 2 },
            CronPart::Exact(30),
            CronPart::All { step: 4 },
            CronPart::Range { min: 0, max: 6, step: 1 },
        ],
    };
    assert_eq!(f.to_cron_string(), "*,1-5/2,30,*/4,0-6");
}

#[test]
fn cron_serialization_round_trips_through_parse() {
    let f = CronField {
        parts: vec![CronPart::Exact(7), CronPart::Range { min: 2, max: 9, step: 3 }],
    };
    let parsed = CronField::parse(&f.to_cron_string()).unwrap();
    assert_eq!(parsed.parts, f.parts);
}

#[test]
fn schedule_params_build_up() {
    let p = ScheduleParams::new("nightly");
    assert_eq!(p.name, "nightly");
    assert!(!p.is_active);
    assert_eq!(p.cron.month.parts, vec![CronPart::All { step: 1 }]);
    assert_eq!(p.cron.minute.parts, vec![CronPart::Exact(0)]);
    let p = p
        .set_active()
        .with_minute(CronField::exact(30))
        .with_hour(CronField::exact(4))
        .with_day_of_week(cron_field_all())
        .with_day_of_month(CronField::exact(1))
        .with_month(CronField::exact(6));
    assert!(p.is_active);
    assert_eq!(p.cron.minute.parts, vec![CronPart::Exact(30)]);
    assert_eq!(p.cron.hour.parts, vec![CronPart::Exact(4)]);
    assert_eq!(p.cron.day_of_month.parts, vec![CronPart::Exact(1)]);
    assert_eq!(p.cron.month.parts, vec![CronPart::Exact(6)]);
}

#[test]
fn schedule_actions_encode_and_decode() {
    let (name, payload) = ScheduleAction::Command("say hi".to_owned()).to_parts();
    assert_eq!((name.as_str(), payload.as_str()), ("command", "say hi"));
    let (name, payload) = ScheduleAction::Power(PowerSignal::Stop).to_parts();
    assert_eq!((name.as_str(), payload.as_str()), ("power", "stop"));
    let (name, payload) = ScheduleAction::Backup {
        ignored_files: vec!["a.log".to_owned(), "cache".to_owned()],
    }
    .to_parts();
    assert_eq!((name.as_str(), payload.as_str()), ("backup", "a.log\ncache"));

    assert!(matches!(
        ScheduleAction::from_parts("command", "say hi").unwrap(),
        ScheduleAction::Command(c) if c == "say hi"
    ));
    assert!(matches!(
        ScheduleAction::from_parts("power", "kill").unwrap(),
        ScheduleAction::Power(PowerSignal::Kill)
    ));
    match ScheduleAction::from_parts("backup", "a.log\n\ncache\n").unwrap() {
        ScheduleAction::Backup { ignored_files } => {
            assert_eq!(ignored_files, vec!["a.log".to_owned(), "cache".to_owned()]);
        }
        other => panic!("unexpected action {:?}", other),
    }
    assert!(matches!(ScheduleAction::from_parts("power", "explode"), Err(Error::Json(_))));
    assert!(matches!(ScheduleAction::from_parts("reboot", "x"), Err(Error::Json(_))));
}

#[test]
fn task_params_build_up() {
    let t = TaskParams::new(ScheduleAction::Power(PowerSignal::Start)).with_time_offset(-30);
    assert_eq!(t.time_offset, -30);
    assert!(matches!(t.action, ScheduleAction::Power(PowerSignal::Start)));
}

#[test]
fn permission_strings_decode() {
    let p = PteroFilePermissions::parse("drwxr-xr-x").unwrap();
    assert_eq!(p.file_type, PteroFileType::Directory);
    assert!(p.owner.read && p.owner.write && p.owner.executable);
    assert!(p.group_owner.read && !p.group_owner.write && p.group_owner.executable);
    assert!(p.other_users.read && !p.other_users.write && p.other_users.executable);

    let p = PteroFilePermissions::parse("-rwSr-sr-T").unwrap();
    assert_eq!(p.file_type, PteroFileType::Normal);
    assert!(!p.owner.executable && p.owner.setuid && !p.owner.sticky);
    assert!(p.group_owner.executable && p.group_owner.setuid);
    assert!(!p.other_users.executable && p.other_users.sticky);

    let p = PteroFilePermissions::parse("lrwxrwxrwx").unwrap();
    assert_eq!(p.file_type, PteroFileType::Symlink);

    assert!(matches!(PteroFilePermissions::parse("drwxr-xr-"), Err(Error::Json(_))));
    assert!(matches!(PteroFilePermissions::parse("drwxr-xr-xx"), Err(Error::Json(_))));
    assert!(matches!(PteroFilePermissions::parse("qrwxr-xr-x"), Err(Error::Json(_))));
}

#[test]
fn paths_split_as_the_api_expects() {
    assert_eq!(split_dir_filename("a/b/c.txt"), ("a/b/".to_owned(), "c.txt".to_owned()));
    assert_eq!(split_dir_filename("c.txt"), ("".to_owned(), "c.txt".to_owned()));
    assert_eq!(split_filename_extension("c.tar.gz"), ("c.tar".to_owned(), ".gz".to_owned()));
    assert_eq!(split_filename_extension("Makefile"), ("Makefile".to_owned(), "".to_owned()));
    assert_eq!(folder_parts("/srv/data/"), ("/srv/".to_owned(), "data".to_owned()));
    assert_eq!(folder_parts("data"), ("".to_owned(), "data".to_owned()));
    assert_eq!(file_parts("/a/b/"), vec!["a".to_owned(), "b".to_owned()]);
    assert_eq!(file_parts(""), Vec::<String>::new());
    assert_eq!(file_parts("a"), vec!["a".to_owned()]);
}

#[test]
fn relativize_walks_out_of_the_root() {
    assert_eq!(relativize("/x/y/f.txt", "/x/z"), "../y/f.txt");
    assert_eq!(relativize("a/b/c.txt", "a"), "b/c.txt");
    assert_eq!(relativize("f.txt", "a/b"), "../../f.txt");
    assert_eq!(relativize("/a/f.txt", "/a"), "f.txt");
}

#[test]
fn copy_names_skip_taken_candidates() {
    let existing: Vec<String> = vec!["f copy.txt".to_owned(), "f copy 1.txt".to_owned()];
    assert_eq!(find_copy_name("", "f", ".txt", &existing), "f copy 2.txt");
    let none: Vec<String> = Vec::new();
    assert_eq!(find_copy_name("d/", "f", ".txt", &none), "d/f copy.txt");
}

#[test]
fn endpoints_percent_encode_the_query() {
    assert_eq!(
        list_files_endpoint("abc123", "/my dir/ä"),
        "servers/abc123/files/list?directory=%2Fmy%20dir%2F%C3%A4"
    );
    assert_eq!(
        file_contents_endpoint("abc123", "eula.txt"),
        "servers/abc123/files/contents?file=eula.txt"
    );
    assert_eq!(
        urlencoding::encode("/my dir/ä").into_owned(),
        "%2Fmy%20dir%2F%C3%A4"
    );
}
