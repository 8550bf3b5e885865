//! Data and logic for endpoints under `api/client/servers/{server}/schedules`:
//! the cron-field syntax that schedules are expressed in, and the schedule
//! and task parameter builders.

use crate::structs::PowerSignal;
use crate::text::{chars_eq_str, char_from_u32, dec_str, dec_u64_chars, push_all, spec_join,
    spec_parse_u32, spec_split, split_chars, str_to_chars, string_from_chars, parse_u32_str};
use crate::Error;
use vstd::prelude::*;
use vstd::string::StringExecFns;

verus! {

/// A rule for when a field of [`Cron`] triggers.
#[derive(Debug, PartialEq, Eq, Hash, Clone, Copy, Structural)]
pub enum CronPart {
    /// Trigger on every minute/hour/etc
    All {
        /// Defaults to 1. If higher, trigger every `step` minutes/hours/etc
        step: u32,
    },
    /// Trigger on a specific minute/hour/etc
    Exact(u32),
    /// Trigger between a range of minutes/hours/etc
    Range {
        /// The minimum minute/hour/etc to trigger on
        min: u32,
        /// The maximum minute/hour/etc to trigger on
        max: u32,
        /// Defaults to 1. If higher trigger every `step` minutes/hours/etc
        /// within this range
        step: u32,
    },
}

impl CronPart {
    /// Creates a [`CronPart`] that triggers on every minute/hour/etc.
    pub fn all() -> (r: Self)
        ensures
            r == (CronPart::All { step: 1u32 }),
    {
        CronPart::All { step: 1 }
    }
}

/// Rules for a field of [`Cron`]. The rules are ORed together.
#[derive(Debug, Clone)]
pub struct CronField {
    /// A set of rules for when a field triggers
    pub parts: Vec<CronPart>,
}

/// The single-part field list that triggers always.
pub open spec fn all_field() -> Seq<CronPart> {
    seq![CronPart::All { step: 1u32 }]
}

/// The single-part field list that triggers on one exact value.
pub open spec fn exact_field(v: u32) -> Seq<CronPart> {
    seq![CronPart::Exact(v)]
}

impl CronField {
    /// The field holding exactly one part.
    pub fn from_part(part: CronPart) -> (r: Self)
        ensures
            r.parts@ == seq![part],
    {
        let mut parts: Vec<CronPart> = Vec::new();
        parts.push(part);
        proof {
            assert(parts@ =~= seq![part]);
        }
        CronField { parts }
    }

    /// The field triggering on one exact value.
    pub fn exact(value: u32) -> (r: Self)
        ensures
            r.parts@ == exact_field(value),
    {
        CronField::from_part(CronPart::Exact(value))
    }
}

impl Default for CronField {
    /// The default field: exactly 0.
    fn default() -> (r: Self)
        ensures
            r.parts@ == exact_field(0),
    {
        CronField::exact(0)
    }
}

/// The default for fields a schedule payload may omit: trigger always.
pub fn cron_field_all() -> (r: CronField)
    ensures
        r.parts@ == all_field(),
{
    CronField::from_part(CronPart::all())
}

/// The rules for when a schedule is triggered.
#[derive(Debug, Clone)]
pub struct Cron {
    /// The month(s) when a schedule is triggered
    pub month: CronField,
    /// The day(s) of the week when a schedule is triggered
    pub day_of_week: CronField,
    /// The day(s) of the month when a schedule is triggered
    pub day_of_month: CronField,
    /// The hour(s) of the day when the schedule is triggered
    pub hour: CronField,
    /// The minute(s) of the hour when the schedule is triggered
    pub minute: CronField,
}

impl Default for Cron {
    /// The default rules: every month, day and weekday, at minute 0 of hour 0.
    fn default() -> (r: Self)
        ensures
            r.month.parts@ == all_field(),
            r.day_of_week.parts@ == all_field(),
            r.day_of_month.parts@ == all_field(),
            r.hour.parts@ == exact_field(0),
            r.minute.parts@ == exact_field(0),
    {
        Cron {
            month: cron_field_all(),
            day_of_week: cron_field_all(),
            day_of_month: cron_field_all(),
            hour: CronField::exact(0),
            minute: CronField::exact(0),
        }
    }
}

// ---------------------------------------------------------------------------
// Cron field syntax
// ---------------------------------------------------------------------------

/// Whether `c` has the Unicode `White_Space` property, as
/// `char::is_whitespace` tests it.
pub open spec fn is_unicode_ws(c: char) -> bool {
    let u = c as u32;
    (9 <= u && u <= 13) || u == 32 || u == 0x85 || u == 0xA0 || u == 0x1680 || (0x2000 <= u && u
        <= 0x200A) || u == 0x2028 || u == 0x2029 || u == 0x202F || u == 0x205F || u == 0x3000
}

fn is_unicode_ws_exec(c: char) -> (r: bool)
    ensures
        r == is_unicode_ws(c),
{
    let u = c as u32;
    (9 <= u && u <= 13) || u == 32 || u == 0x85 || u == 0xA0 || u == 0x1680 || (0x2000 <= u && u
        <= 0x200A) || u == 0x2028 || u == 0x2029 || u == 0x202F || u == 0x205F || u == 0x3000
}

/// `s` with every whitespace char removed.
pub open spec fn strip_ws(s: Seq<char>) -> Seq<char>
    decreases s.len(),
{
    if s.len() == 0 {
        Seq::<char>::empty()
    } else {
        strip_ws(s.drop_last()) + (if is_unicode_ws(s.last()) {
            Seq::<char>::empty()
        } else {
            seq![s.last()]
        })
    }
}

fn strip_ws_exec(v: &Vec<char>) -> (r: Vec<char>)
    ensures
        r@ == strip_ws(v@),
{
    let mut r: Vec<char> = Vec::new();
    let n = v.len();
    let mut i: usize = 0;
    while i < n
        invariant
            i <= n,
            n == v@.len(),
            r@ == strip_ws(v@.take(i as int)),
        decreases n - i,
    {
        let c = v[i];
        if !is_unicode_ws_exec(c) {
            r.push(c);
        }
        proof {
            assert(v@.take(i + 1).drop_last() =~= v@.take(i as int));
            assert(v@.take(i + 1).last() == v@[i as int]);
            if is_unicode_ws(v@[i as int]) {
                assert(r@ =~= strip_ws(v@.take(i + 1)));
            } else {
                assert(r@ =~= strip_ws(v@.take(i + 1)));
            }
        }
        i = i + 1;
    }
    proof {
        assert(v@.take(n as int) =~= v@);
    }
    r
}

/// The index of the first occurrence of `c` in `s`, if any.
pub open spec fn first_ix(s: Seq<char>, c: char) -> Option<nat>
    decreases s.len(),
{
    if s.len() == 0 {
        None
    } else if s[0] == c {
        Some(0nat)
    } else {
        match first_ix(s.drop_first(), c) {
            Some(i) => Some((i + 1) as nat),
            None => None,
        }
    }
}

proof fn lemma_first_ix(s: Seq<char>, c: char, j: int)
    requires
        0 <= j <= s.len(),
        forall|k: int| 0 <= k < j ==> s[k] != c,
        j < s.len() ==> s[j] == c,
    ensures
        j < s.len() ==> first_ix(s, c) == Some(j as nat),
        j == s.len() ==> first_ix(s, c) is None,
    decreases j,
{
    if j == 0 {
    } else {
        let t = s.drop_first();
        lemma_first_ix(t, c, j - 1);
    }
}

fn find_char(v: &Vec<char>, c: char) -> (r: Option<usize>)
    ensures
        match r {
            Some(j) => first_ix(v@, c) == Some(j as nat) && j < v@.len(),
            None => first_ix(v@, c) is None,
        },
{
    let n = v.len();
    let mut j: usize = 0;
    while j < n && v[j] != c
        invariant
            j <= n,
            n == v@.len(),
            forall|k: int| 0 <= k < j ==> v@[k] != c,
        decreases n - j,
    {
        j = j + 1;
    }
    proof {
        lemma_first_ix(v@, c, j as int);
    }
    if j < n {
        Some(j)
    } else {
        None
    }
}

/// `c` lowered to lower case if it is an ASCII capital letter.
pub open spec fn ascii_lower(c: char) -> char {
    if 65 <= c as u32 && c as u32 <= 90 {
        (((c as u32 + 32) as u32) as char)
    } else {
        c
    }
}

/// `s` with ASCII capital letters lowered.
pub open spec fn lower_seq(s: Seq<char>) -> Seq<char> {
    Seq::new(s.len(), |i: int| ascii_lower(s[i]))
}

fn to_lower(v: &Vec<char>) -> (r: Vec<char>)
    ensures
        r@ == lower_seq(v@),
{
    let mut r: Vec<char> = Vec::new();
    let n = v.len();
    let mut i: usize = 0;
    while i < n
        invariant
            i <= n,
            n == v@.len(),
            r@.len() == i,
            forall|k: int| 0 <= k < i ==> r@[k] == ascii_lower(v@[k]),
        decreases n - i,
    {
        let c = v[i];
        let u = c as u32;
        if 65 <= u && u <= 90 {
            let c2 = match char_from_u32(u + 32) {
                Some(c2) => c2,
                None => {
                    // unreachable: u + 32 is an ASCII code point
                    return r;
                },
            };
            proof {
                vstd::utf8::char_u32_cast(c2, (u + 32) as u32);
            }
            r.push(c2);
        } else {
            r.push(c);
        }
        i = i + 1;
    }
    proof {
        assert(r@ =~= lower_seq(v@));
    }
    r
}

/// The value of a named cron token, already lower-cased: month names map to
/// 1 through 12, weekday names to 0 through 6.
pub open spec fn spec_cron_name(s: Seq<char>) -> Option<u32> {
    if s == "jan"@ {
        Some(1u32)
    } else if s == "feb"@ {
        Some(2u32)
    } else if s == "mar"@ {
        Some(3u32)
    } else if s == "apr"@ {
        Some(4u32)
    } else if s == "may"@ {
        Some(5u32)
    } else if s == "jun"@ {
        Some(6u32)
    } else if s == "jul"@ {
        Some(7u32)
    } else if s == "aug"@ {
        Some(8u32)
    } else if s == "sep"@ {
        Some(9u32)
    } else if s == "oct"@ {
        Some(10u32)
    } else if s == "nov"@ {
        Some(11u32)
    } else if s == "dec"@ {
        Some(12u32)
    } else if s == "sun"@ {
        Some(0u32)
    } else if s == "mon"@ {
        Some(1u32)
    } else if s == "tue"@ {
        Some(2u32)
    } else if s == "wed"@ {
        Some(3u32)
    } else if s == "thu"@ {
        Some(4u32)
    } else if s == "fri"@ {
        Some(5u32)
    } else if s == "sat"@ {
        Some(6u32)
    } else {
        None
    }
}

fn cron_name(v: &Vec<char>) -> (r: Option<u32>)
    ensures
        r == spec_cron_name(v@),
{
    if chars_eq_str(v, "jan") {
        Some(1)
    } else if chars_eq_str(v, "feb") {
        Some(2)
    } else if chars_eq_str(v, "mar") {
        Some(3)
    } else if chars_eq_str(v, "apr") {
        Some(4)
    } else if chars_eq_str(v, "may") {
        Some(5)
    } else if chars_eq_str(v, "jun") {
        Some(6)
    } else if chars_eq_str(v, "jul") {
        Some(7)
    } else if chars_eq_str(v, "aug") {
        Some(8)
    } else if chars_eq_str(v, "sep") {
        Some(9)
    } else if chars_eq_str(v, "oct") {
        Some(10)
    } else if chars_eq_str(v, "nov") {
        Some(11)
    } else if chars_eq_str(v, "dec") {
        Some(12)
    } else if chars_eq_str(v, "sun") {
        Some(0)
    } else if chars_eq_str(v, "mon") {
        Some(1)
    } else if chars_eq_str(v, "tue") {
        Some(2)
    } else if chars_eq_str(v, "wed") {
        Some(3)
    } else if chars_eq_str(v, "thu") {
        Some(4)
    } else if chars_eq_str(v, "fri") {
        Some(5)
    } else if chars_eq_str(v, "sat") {
        Some(6)
    } else {
        None
    }
}

/// The value of one bound or exact token: a `u32` numeral, or a named month
/// or weekday, case-insensitively.
pub open spec fn spec_cron_int(s: Seq<char>) -> Option<u32> {
    match spec_parse_u32(s) {
        Some(v) => Some(v),
        None => spec_cron_name(lower_seq(s)),
    }
}

fn cron_int(v: &Vec<char>) -> (r: Option<u32>)
    ensures
        r == spec_cron_int(v@),
{
    match parse_u32_str(v) {
        Some(n) => Some(n),
        None => {
            let lowered = to_lower(v);
            cron_name(&lowered)
        },
    }
}

/// The rule one comma-separated piece stands for: an optional `/step` suffix
/// (found at the first slash), then `*`, a `min-max` range split at the
/// first dash, or one exact value.
pub open spec fn spec_cron_part(p: Seq<char>) -> Option<CronPart> {
    let body = match first_ix(p, '/') {
        Some(ix) => p.take(ix as int),
        None => p,
    };
    let step_opt = match first_ix(p, '/') {
        Some(ix) => spec_parse_u32(p.skip(ix + 1 as int)),
        None => Some(1u32),
    };
    match step_opt {
        None => None,
        Some(step) => {
            if body == seq!['*'] {
                Some(CronPart::All { step })
            } else {
                match first_ix(body, '-') {
                    Some(d) => {
                        match (spec_cron_int(body.take(d as int)), spec_cron_int(
                            body.skip(d + 1 as int),
                        )) {
                            (Some(mn), Some(mx)) => Some(
                                CronPart::Range { min: mn, max: mx, step },
                            ),
                            _ => None,
                        }
                    },
                    None => match spec_cron_int(body) {
                        Some(v) => Some(CronPart::Exact(v)),
                        None => None,
                    },
                }
            }
        },
    }
}

fn subvec(v: &Vec<char>, a: usize, b: usize) -> (r: Vec<char>)
    requires
        a <= b <= v@.len(),
    ensures
        r@ == v@.subrange(a as int, b as int),
{
    let mut r: Vec<char> = Vec::new();
    let mut k = a;
    while k < b
        invariant
            a <= k <= b <= v@.len(),
            r@ == v@.subrange(a as int, k as int),
        decreases b - k,
    {
        r.push(v[k]);
        assert(r@ =~= v@.subrange(a as int, k + 1 as int));
        k = k + 1;
    }
    r
}

fn cron_part(p: &Vec<char>) -> (r: Option<CronPart>)
    ensures
        r == spec_cron_part(p@),
{
    let n = p.len();
    let (body, step) = match find_char(p, '/') {
        Some(ix) => {
            let body = subvec(p, 0, ix);
            proof {
                assert(body@ =~= p@.take(ix as int));
            }
            let rest = subvec(p, ix + 1, n);
            proof {
                assert(rest@ =~= p@.skip(ix + 1));
            }
            match parse_u32_str(&rest) {
                Some(st) => (body, st),
                None => {
                    return None;
                },
            }
        },
        None => (subvec(p, 0, n), 1),
    };
    proof {
        if first_ix(p@, '/') is None {
            assert(body@ =~= p@);
        }
    }
    if body.len() == 1 && body[0] == '*' {
        proof {
            assert(body@ =~= seq!['*']);
        }
        return Some(CronPart::All { step });
    }
    proof {
        if body@ == seq!['*'] {
            assert(body@.len() == 1 && body@[0] == '*');
        }
    }
    let bn = body.len();
    match find_char(&body, '-') {
        Some(d) => {
            let from = subvec(&body, 0, d);
            proof {
                assert(from@ =~= body@.take(d as int));
            }
            let to = subvec(&body, d + 1, bn);
            proof {
                assert(to@ =~= body@.skip(d + 1));
            }
            match (cron_int(&from), cron_int(&to)) {
                (Some(mn), Some(mx)) => Some(CronPart::Range { min: mn, max: mx, step }),
                _ => None,
            }
        },
        None => match cron_int(&body) {
            Some(v) => Some(CronPart::Exact(v)),
            None => None,
        },
    }
}

/// The parts a cron field string stands for: whitespace is removed, the
/// string splits on commas, and every piece must be a rule.
pub open spec fn spec_parse_cron_field(s: Seq<char>) -> Option<Seq<CronPart>> {
    let pieces = spec_split(strip_ws(s), ',');
    if forall|i: int| 0 <= i < pieces.len() ==> spec_cron_part(#[trigger] pieces[i]) is Some {
        Some(Seq::new(pieces.len(), |i: int| spec_cron_part(pieces[i])->0))
    } else {
        None
    }
}

impl CronField {
    /// Parses a cron field string: whitespace-tolerant, comma-separated
    /// rules, each `*`, an exact value or a `min-max` range, with an
    /// optional `/step` suffix and named months and weekdays accepted.
    pub fn parse(s: &str) -> (r: Result<CronField, Error>)
        ensures
            match spec_parse_cron_field(s@) {
                Some(parts) => match r {
                    Ok(f) => f.parts@ == parts,
                    Err(_) => false,
                },
                None => match r {
                    Err(e) => e is Json,
                    Ok(_) => false,
                },
            },
    {
        let chars = str_to_chars(s);
        let cleaned = strip_ws_exec(&chars);
        let pieces = split_chars(&cleaned, ',');
        let ghost spieces = spec_split(strip_ws(s@), ',');
        proof {
            assert(pieces.deep_view() == spieces);
        }
        let mut parts: Vec<CronPart> = Vec::new();
        let mut i: usize = 0;
        while i < pieces.len()
            invariant
                i <= pieces@.len(),
                pieces.deep_view() == spieces,
                spieces == spec_split(strip_ws(s@), ','),
                parts@.len() == i,
                forall|j: int| 0 <= j < i ==> spec_cron_part(#[trigger] spieces[j]) is Some,
                forall|j: int| 0 <= j < i ==> parts@[j] == spec_cron_part(#[trigger] spieces[j])->0,
            decreases pieces@.len() - i,
        {
            proof {
                crate::text::lemma_chars_deep_view(pieces@[i as int]);
                assert(pieces@[i as int]@ == spieces[i as int]);
            }
            match cron_part(&pieces[i]) {
                Some(part) => {
                    parts.push(part);
                },
                None => {
                    proof {
                        assert(!(forall|j: int|
                            0 <= j < spieces.len() ==> spec_cron_part(#[trigger] spieces[j])
                                is Some)) by {
                            assert(0 <= i < spieces.len() && !(spec_cron_part(spieces[i as int])
                                is Some));
                        };
                    }
                    return Err(Error::Json(String::new()));
                },
            }
            i = i + 1;
        }
        proof {
            assert(parts@ =~= Seq::new(spieces.len(), |j: int| spec_cron_part(spieces[j])->0));
        }
        Ok(CronField { parts })
    }
}

/// The text one rule serializes to.
pub open spec fn spec_cron_part_str(p: CronPart) -> Seq<char> {
    match p {
        CronPart::All { step } => {
            if step == 1 {
                seq!['*']
            } else {
                seq!['*', '/'] + dec_str(step as nat)
            }
        },
        CronPart::Exact(v) => dec_str(v as nat),
        CronPart::Range { min, max, step } => {
            dec_str(min as nat) + seq!['-'] + dec_str(max as nat) + (if step == 1 {
                Seq::<char>::empty()
            } else {
                seq!['/'] + dec_str(step as nat)
            })
        },
    }
}

/// The text a whole field serializes to: its rules joined with commas.
pub open spec fn spec_cron_field_str(parts: Seq<CronPart>) -> Seq<char> {
    spec_join(Seq::new(parts.len(), |i: int| spec_cron_part_str(parts[i])), ',')
}

fn cron_part_chars(p: &CronPart) -> (r: Vec<char>)
    ensures
        r@ == spec_cron_part_str(*p),
{
    match p {
        CronPart::All { step } => {
            let mut r: Vec<char> = Vec::new();
            r.push('*');
            if *step != 1 {
                r.push('/');
                let d = dec_u64_chars(*step as u64);
                push_all(&mut r, &d);
                assert(r@ =~= seq!['*', '/'] + dec_str(*step as nat));
            } else {
                assert(r@ =~= seq!['*']);
            }
            r
        },
        CronPart::Exact(v) => dec_u64_chars(*v as u64),
        CronPart::Range { min, max, step } => {
            let mut r = dec_u64_chars(*min as u64);
            r.push('-');
            let mx = dec_u64_chars(*max as u64);
            push_all(&mut r, &mx);
            if *step != 1 {
                r.push('/');
                let st = dec_u64_chars(*step as u64);
                push_all(&mut r, &st);
                assert(r@ =~= spec_cron_part_str(*p));
            } else {
                assert(r@ =~= spec_cron_part_str(*p));
            }
            r
        },
    }
}

impl CronField {
    /// Serializes this field to the cron syntax the API uses.
    pub fn to_cron_string(&self) -> (r: String)
        ensures
            r@ == spec_cron_field_str(self.parts@),
    {
        let ghost strs = Seq::new(self.parts@.len(), |i: int| spec_cron_part_str(self.parts@[i]));
        let mut v: Vec<char> = Vec::new();
        let n = self.parts.len();
        let mut k: usize = 0;
        while k < n
            invariant
                k <= n,
                n == self.parts@.len(),
                strs == Seq::new(self.parts@.len(), |i: int| spec_cron_part_str(self.parts@[i])),
                v@ == spec_join(strs.take(k as int), ','),
            decreases n - k,
        {
            if k > 0 {
                v.push(',');
            }
            let pc = cron_part_chars(&self.parts[k]);
            push_all(&mut v, &pc);
            proof {
                assert(strs.take(k + 1) =~= strs.take(k as int).push(strs[k as int]));
                if k == 0 {
                    assert(strs.take(1) =~= seq![strs[0]]);
                    assert(spec_join(strs.take(1), ',') == strs[0]);
                    assert(v@ =~= spec_join(strs.take(1), ','));
                } else {
                    crate::text::lemma_join_snoc(strs.take(k as int), strs[k as int], ',');
                    assert(v@ =~= spec_join(strs.take(k + 1), ','));
                }
            }
            k = k + 1;
        }
        proof {
            assert(strs.take(n as int) =~= strs);
        }
        string_from_chars(&v)
    }
}

// ---------------------------------------------------------------------------
// Schedule actions and parameters
// ---------------------------------------------------------------------------

/// An action performed by a task.
#[derive(Debug, Clone)]
pub enum ScheduleAction {
    /// Send a command to the server
    Command(String),
    /// Send a power signal to the server
    Power(PowerSignal),
    /// Create a backup
    Backup {
        /// The files to ignore while creating the backup
        ignored_files: Vec<String>,
    },
}

/// The mathematical value of a [`ScheduleAction`].
pub enum ScheduleActionV {
    /// A command, with its text
    Command(Seq<char>),
    /// A power signal
    Power(PowerSignal),
    /// A backup, with the ignored files
    Backup(Seq<Seq<char>>),
}

impl View for ScheduleAction {
    type V = ScheduleActionV;

    open spec fn view(&self) -> ScheduleActionV {
        match self {
            ScheduleAction::Command(c) => ScheduleActionV::Command(c@),
            ScheduleAction::Power(sig) => ScheduleActionV::Power(*sig),
            ScheduleAction::Backup { ignored_files } => ScheduleActionV::Backup(
                ignored_files.deep_view(),
            ),
        }
    }
}

/// The nonempty pieces, in order.
pub open spec fn nonempty_pieces(pieces: Seq<Seq<char>>) -> Seq<Seq<char>>
    decreases pieces.len(),
{
    if pieces.len() == 0 {
        Seq::<Seq<char>>::empty()
    } else {
        nonempty_pieces(pieces.drop_last()) + (if pieces.last().len() > 0 {
            seq![pieces.last()]
        } else {
            Seq::<Seq<char>>::empty()
        })
    }
}

/// The action an `action`/`payload` pair decodes to: a `command` action
/// carries its payload verbatim; a `power` payload must be a power signal's
/// wire encoding; a `backup` payload is a newline-separated list of files,
/// empty entries dropped. Any other action name is rejected.
pub open spec fn spec_action_from_parts(action: Seq<char>, payload: Seq<char>) -> Option<
    ScheduleActionV,
> {
    if action == "command"@ {
        Some(ScheduleActionV::Command(payload))
    } else if action == "power"@ {
        match PowerSignal::spec_from_wire(payload) {
            Some(sig) => Some(ScheduleActionV::Power(sig)),
            None => None,
        }
    } else if action == "backup"@ {
        Some(ScheduleActionV::Backup(nonempty_pieces(spec_split(payload, '\n'))))
    } else {
        None
    }
}

impl ScheduleAction {
    /// Decodes the `action` name and `payload` of a task into an action.
    pub fn from_parts(action: &str, payload: &str) -> (r: Result<ScheduleAction, Error>)
        ensures
            match spec_action_from_parts(action@, payload@) {
                Some(av) => match r {
                    Ok(a) => a@ == av,
                    Err(_) => false,
                },
                None => match r {
                    Err(e) => e is Json,
                    Ok(_) => false,
                },
            },
    {
        if crate::text::str_eq(action, "command") {
            Ok(ScheduleAction::Command(String::from_str(payload)))
        } else if crate::text::str_eq(action, "power") {
            match PowerSignal::from_wire(payload) {
                Some(sig) => Ok(ScheduleAction::Power(sig)),
                None => Err(Error::Json(String::new())),
            }
        } else if crate::text::str_eq(action, "backup") {
            let chars = str_to_chars(payload);
            let pieces = split_chars(&chars, '\n');
            let ghost spieces = spec_split(payload@, '\n');
            let mut files: Vec<String> = Vec::new();
            let n = pieces.len();
            let mut i: usize = 0;
            while i < n
                invariant
                    i <= n,
                    n == pieces@.len(),
                    pieces.deep_view() == spieces,
                    files.deep_view() == nonempty_pieces(spieces.take(i as int)),
                decreases n - i,
            {
                proof {
                    crate::text::lemma_chars_deep_view(pieces@[i as int]);
                    assert(pieces@[i as int]@ == spieces[i as int]);
                    assert(spieces.take(i + 1).drop_last() =~= spieces.take(i as int));
                    assert(spieces.take(i + 1).last() == spieces[i as int]);
                }
                let ghost pre = files.deep_view();
                if pieces[i].len() > 0 {
                    files.push(string_from_chars(&pieces[i]));
                    proof {
                        assert(files.deep_view() =~~= pre + seq![spieces[i as int]]);
                        assert(files.deep_view() =~~= nonempty_pieces(spieces.take(i + 1)));
                    }
                } else {
                    proof {
                        assert(files.deep_view() =~~= nonempty_pieces(spieces.take(i + 1)));
                    }
                }
                i = i + 1;
            }
            proof {
                assert(spieces.take(n as int) =~= spieces);
            }
            Ok(ScheduleAction::Backup { ignored_files: files })
        } else {
            Err(Error::Json(String::new()))
        }
    }

    /// The `action` name this action is carried under.
    pub open spec fn spec_action_name(&self) -> Seq<char> {
        match self {
            ScheduleAction::Command(_) => "command"@,
            ScheduleAction::Power(_) => "power"@,
            ScheduleAction::Backup { .. } => "backup"@,
        }
    }

    /// The `payload` this action is carried with.
    pub open spec fn spec_payload(&self) -> Seq<char> {
        match self {
            ScheduleAction::Command(c) => c@,
            ScheduleAction::Power(sig) => sig.wire_view(),
            ScheduleAction::Backup { ignored_files } => spec_join(ignored_files.deep_view(), '\n'),
        }
    }

    /// Encodes this action as the `action` name and `payload` the API
    /// carries it as: commands verbatim, power signals by their wire
    /// encoding, backups as a newline-joined file list.
    pub fn to_parts(&self) -> (r: (String, String))
        ensures
            r.0@ == self.spec_action_name(),
            r.1@ == self.spec_payload(),
    {
        match self {
            ScheduleAction::Command(c) => (String::from_str("command"), c.clone()),
            ScheduleAction::Power(sig) => (String::from_str("power"), sig.to_wire().to_owned()),
            ScheduleAction::Backup { ignored_files } => {
                let mut pieces: Vec<Vec<char>> = Vec::new();
                let n = ignored_files.len();
                let mut i: usize = 0;
                while i < n
                    invariant
                        i <= n,
                        n == ignored_files@.len(),
                        pieces.deep_view() == ignored_files.deep_view().take(i as int),
                    decreases n - i,
                {
                    let piece = str_to_chars(ignored_files[i].as_str());
                    let ghost pre = pieces.deep_view();
                    pieces.push(piece);
                    proof {
                        assert(ignored_files.deep_view()[i as int] == ignored_files@[i as int]@);
                        assert(pieces.deep_view() =~~= pre.push(piece@));
                        assert(pieces.deep_view() =~~= ignored_files.deep_view().take(i + 1));
                    }
                    i = i + 1;
                }
                proof {
                    assert(ignored_files.deep_view().take(n as int) =~= ignored_files.deep_view());
                }
                let joined = crate::text::join_chars(&pieces, '\n');
                (String::from_str("backup"), string_from_chars(&joined))
            },
        }
    }
}

/// The parameters to create a schedule.
#[derive(Debug, Clone)]
pub struct ScheduleParams {
    /// The name of the schedule
    pub name: String,
    /// Whether the schedule is active once created
    pub is_active: bool,
    /// The rules for when the schedule is triggered
    pub cron: Cron,
}

impl ScheduleParams {
    /// Creates the default schedule parameters with the given name: not
    /// active, with the default cron rules.
    pub fn new(name: &str) -> (r: Self)
        ensures
            r.name@ == name@,
            !r.is_active,
            r.cron.month.parts@ == all_field(),
            r.cron.day_of_week.parts@ == all_field(),
            r.cron.day_of_month.parts@ == all_field(),
            r.cron.hour.parts@ == exact_field(0),
            r.cron.minute.parts@ == exact_field(0),
    {
        ScheduleParams { name: String::from_str(name), is_active: false, cron: Cron::default() }
    }

    /// Sets the schedule to be active once created.
    pub fn set_active(self) -> (r: Self)
        ensures
            r.name == self.name,
            r.is_active,
            r.cron == self.cron,
    {
        ScheduleParams { name: self.name, is_active: true, cron: self.cron }
    }

    /// Sets the month(s) of the year the schedule will run at.
    pub fn with_month(self, month: CronField) -> (r: Self)
        ensures
            r.name == self.name,
            r.is_active == self.is_active,
            r.cron.month == month,
            r.cron.day_of_week == self.cron.day_of_week,
            r.cron.day_of_month == self.cron.day_of_month,
            r.cron.hour == self.cron.hour,
            r.cron.minute == self.cron.minute,
    {
        ScheduleParams {
            name: self.name,
            is_active: self.is_active,
            cron: Cron {
                month,
                day_of_week: self.cron.day_of_week,
                day_of_month: self.cron.day_of_month,
                hour: self.cron.hour,
                minute: self.cron.minute,
            },
        }
    }

    /// Sets the minute(s) of the hour the schedule will run at.
    pub fn with_minute(self, minute: CronField) -> (r: Self)
        ensures
            r.name == self.name,
            r.is_active == self.is_active,
            r.cron.minute == minute,
            r.cron.month == self.cron.month,
            r.cron.day_of_week == self.cron.day_of_week,
            r.cron.day_of_month == self.cron.day_of_month,
            r.cron.hour == self.cron.hour,
    {
        ScheduleParams {
            name: self.name,
            is_active: self.is_active,
            cron: Cron {
                month: self.cron.month,
                day_of_week: self.cron.day_of_week,
                day_of_month: self.cron.day_of_month,
                hour: self.cron.hour,
                minute,
            },
        }
    }

    /// Sets the hour(s) of the day the schedule will run at.
    pub fn with_hour(self, hour: CronField) -> (r: Self)
        ensures
            r.name == self.name,
            r.is_active == self.is_active,
            r.cron.hour == hour,
            r.cron.month == self.cron.month,
            r.cron.day_of_week == self.cron.day_of_week,
            r.cron.day_of_month == self.cron.day_of_month,
            r.cron.minute == self.cron.minute,
    {
        ScheduleParams {
            name: self.name,
            is_active: self.is_active,
            cron: Cron {
                month: self.cron.month,
                day_of_week: self.cron.day_of_week,
                day_of_month: self.cron.day_of_month,
                hour,
                minute: self.cron.minute,
            },
        }
    }

    /// Sets the day(s) of the week the schedule will run at.
    pub fn with_day_of_week(self, day_of_week: CronField) -> (r: Self)
        ensures
            r.name == self.name,
            r.is_active == self.is_active,
            r.cron.day_of_week == day_of_week,
            r.cron.month == self.cron.month,
            r.cron.day_of_month == self.cron.day_of_month,
            r.cron.hour == self.cron.hour,
            r.cron.minute == self.cron.minute,
    {
        ScheduleParams {
            name: self.name,
            is_active: self.is_active,
            cron: Cron {
                month: self.cron.month,
                day_of_week,
                day_of_month: self.cron.day_of_month,
                hour: self.cron.hour,
                minute: self.cron.minute,
            },
        }
    }

    /// Sets the day(s) of the month the schedule will run at.
    pub fn with_day_of_month(self, day_of_month: CronField) -> (r: Self)
        ensures
            r.name == self.name,
            r.is_active == self.is_active,
            r.cron.day_of_month == day_of_month,
            r.cron.month == self.cron.month,
            r.cron.day_of_week == self.cron.day_of_week,
            r.cron.hour == self.cron.hour,
            r.cron.minute == self.cron.minute,
    {
        ScheduleParams {
            name: self.name,
            is_active: self.is_active,
            cron: Cron {
                month: self.cron.month,
                day_of_week: self.cron.day_of_week,
                day_of_month,
                hour: self.cron.hour,
                minute: self.cron.minute,
            },
        }
    }
}

/// The parameters to create a task.
#[derive(Debug, Clone)]
pub struct TaskParams {
    /// The action performed by the task
    pub action: ScheduleAction,
    /// Seconds from the schedule trigger to the task run
    pub time_offset: i32,
}

impl TaskParams {
    /// Creates the default task parameters with the given action.
    pub fn new(action: ScheduleAction) -> (r: Self)
        ensures
            r.action == action,
            r.time_offset == 0,
    {
        TaskParams { action, time_offset: 0 }
    }

    /// Sets the time offset of the created task.
    pub fn with_time_offset(self, offset: i32) -> (r: Self)
        ensures
            r.action == self.action,
            r.time_offset == offset,
    {
        TaskParams { action: self.action, time_offset: offset }
    }
}

} // verus!
