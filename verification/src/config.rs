//! Configuration loading: a small line-oriented record — line one holds
//! comma-separated trigger labels, line two a blackout duration in
//! seconds, line three an optional debug flag. Loading is best effort:
//! every missing or unparsable field falls back to its documented
//! default, and the program always reaches a runnable state.
//!
//! Reading the file is the host's work; this module turns its contents
//! (or their absence) into a configuration, verifiably.

use vstd::prelude::*;
use crate::norm::{lower_seq, to_lowercase, str_eq, string_from_chars, chars_of};

verus! {

/// The default blackout duration: one second.
pub const DEFAULT_DURATION_MILLIS: u64 = 1000;

/// Durations are read as at most this many whole-second digits; longer
/// numbers are treated as unparsable and fall back to the default.
pub const MAX_DURATION_DIGITS: usize = 12;

// ---------------------------------------------------------------------
// Splitting and trimming
// ---------------------------------------------------------------------

/// The segments of `s` between occurrences of `sep`: always at least one
/// segment, and one more segment than separators.
pub open spec fn split_spec(s: Seq<char>, sep: char) -> Seq<Seq<char>>
    decreases s.len(),
{
    if s.len() == 0 {
        seq![Seq::<char>::empty()]
    } else if s[0] == sep {
        seq![Seq::<char>::empty()] + split_spec(s.drop_first(), sep)
    } else {
        let rest = split_spec(s.drop_first(), sep);
        rest.update(0, seq![s[0]] + rest[0])
    }
}

/// Splitting yields at least one segment.
pub proof fn lemma_split_len(s: Seq<char>, sep: char)
    ensures
        split_spec(s, sep).len() >= 1,
    decreases s.len(),
{
    if s.len() > 0 {
        lemma_split_len(s.drop_first(), sep);
    }
}

/// ASCII whitespace, as trimming sees it.
pub open spec fn is_space(c: char) -> bool {
    c == ' ' || c == '\t' || c == '\r' || c == '\n'
}

/// `s` without its leading whitespace.
pub open spec fn trim_start_spec(s: Seq<char>) -> Seq<char>
    decreases s.len(),
{
    if s.len() > 0 && is_space(s[0]) {
        trim_start_spec(s.drop_first())
    } else {
        s
    }
}

/// `s` without its trailing whitespace.
pub open spec fn trim_end_spec(s: Seq<char>) -> Seq<char>
    decreases s.len(),
{
    if s.len() > 0 && is_space(s.last()) {
        trim_end_spec(s.drop_last())
    } else {
        s
    }
}

/// `s` without leading and trailing ASCII whitespace.
pub open spec fn trim_spec(s: Seq<char>) -> Seq<char> {
    trim_end_spec(trim_start_spec(s))
}

/// Whether a character is ASCII whitespace.
fn is_space_exec(c: char) -> (r: bool)
    ensures
        r == is_space(c),
{
    c == ' ' || c == '\t' || c == '\r' || c == '\n'
}

/// Split a string at every occurrence of `sep`.
pub fn split_string(s: &str, sep: char) -> (parts: Vec<String>)
    ensures
        parts@.map_values(|p: String| p@) == split_spec(s@, sep),
{
    let cs = chars_of(s);
    let mut parts: Vec<String> = Vec::new();
    let mut cur: Vec<char> = Vec::new();
    let mut i: usize = 0;
    proof {
        lemma_split_len(s@, sep);
        assert(s@.skip(0) =~= s@);
        let sp = split_spec(s@, sep);
        assert(cur@ + sp[0] =~= sp[0]);
        assert(sp.update(0, cur@ + sp[0]) =~~= sp);
    }
    while i < cs.len()
        invariant
            i <= cs@.len(),
            cs@ == s@,
            split_spec(s@, sep) == parts@.map_values(|p: String| p@) + split_spec(
                s@.skip(i as int),
                sep,
            ).update(0, cur@ + split_spec(s@.skip(i as int), sep)[0]),
        decreases cs@.len() - i,
    {
        let c = cs[i];
        proof {
            lemma_split_len(s@.skip(i as int), sep);
            lemma_split_len(s@.skip(i as int + 1), sep);
            assert(s@.skip(i as int)[0] == s@[i as int]);
            assert(s@.skip(i as int).drop_first() =~= s@.skip(i as int + 1));
        }
        let ghost old_parts = parts@.map_values(|p: String| p@);
        let ghost old_cur = cur@;
        if c == sep {
            parts.push(string_from_chars(&cur));
            cur = Vec::new();
        } else {
            cur.push(c);
        }
        i += 1;
        proof {
            let i0 = i as int - 1;
            let spi = split_spec(s@.skip(i0), sep);
            let spi1 = split_spec(s@.skip(i0 + 1), sep);
            if s@[i0] == sep {
                assert(spi =~~= seq![Seq::<char>::empty()] + spi1);
                assert(old_cur + spi[0] =~= old_cur);
                assert(spi.update(0, old_cur + spi[0]) =~~= seq![old_cur] + spi1);
                assert(parts@.map_values(|p: String| p@) =~~= old_parts.push(old_cur));
                assert(old_parts + (seq![old_cur] + spi1) =~~= old_parts.push(old_cur) + spi1);
                assert(cur@ + spi1[0] =~= spi1[0]);
                assert(spi1.update(0, cur@ + spi1[0]) =~~= spi1);
                assert(split_spec(s@, sep) == parts@.map_values(|p: String| p@) + split_spec(
                    s@.skip(i as int),
                    sep,
                ).update(0, cur@ + split_spec(s@.skip(i as int), sep)[0]));
            } else {
                assert(spi =~~= spi1.update(0, seq![s@[i0]] + spi1[0]));
                assert(spi[0] == seq![s@[i0]] + spi1[0]);
                assert(old_cur + spi[0] =~= cur@ + spi1[0]);
                assert(spi.update(0, old_cur + spi[0]) =~~= spi1.update(0, cur@ + spi1[0]));
                assert(split_spec(s@, sep) == parts@.map_values(|p: String| p@) + split_spec(
                    s@.skip(i as int),
                    sep,
                ).update(0, cur@ + split_spec(s@.skip(i as int), sep)[0]));
            }
        }
    }
    proof {
        assert(s@.skip(i as int) =~= Seq::<char>::empty());
        let spe = split_spec(Seq::<char>::empty(), sep);
        assert(spe =~~= seq![Seq::<char>::empty()]);
        assert(spe.update(0, cur@ + spe[0]) =~~= seq![cur@]);
    }
    let ghost old_parts = parts@.map_values(|p: String| p@);
    parts.push(string_from_chars(&cur));
    proof {
        assert(parts@.map_values(|p: String| p@) =~~= old_parts.push(cur@));
        assert(old_parts + seq![cur@] =~~= old_parts.push(cur@));
        assert(parts@.map_values(|p: String| p@) =~~= split_spec(s@, sep));
    }
    parts
}

/// Trim leading and trailing ASCII whitespace from a string.
pub fn trim_string(s: &str) -> (r: String)
    ensures
        r@ == trim_spec(s@),
{
    let cs = chars_of(s);
    let mut a: usize = 0;
    let mut b: usize = cs.len();
    proof {
        assert(s@.skip(0) =~= s@);
    }
    while a < b && is_space_exec(cs[a])
        invariant
            0 <= a <= b,
            b == cs@.len(),
            cs@ == s@,
            trim_start_spec(s@) == trim_start_spec(s@.skip(a as int)),
        decreases b - a,
    {
        proof {
            assert(s@.skip(a as int)[0] == s@[a as int]);
            assert(s@.skip(a as int).drop_first() =~= s@.skip(a as int + 1));
        }
        a += 1;
    }
    proof {
        if a == b {
            assert(s@.skip(a as int) =~= Seq::<char>::empty());
        }
        assert(trim_start_spec(s@.skip(a as int)) == s@.skip(a as int));
    }
    let ghost t = s@.skip(a as int);
    proof {
        assert(t.take(b - a as int) =~= t);
    }
    while b > a && is_space_exec(cs[b - 1])
        invariant
            a <= b <= cs@.len(),
            cs@ == s@,
            t == s@.skip(a as int),
            trim_end_spec(t) == trim_end_spec(t.take(b - a as int)),
        decreases b - a,
    {
        proof {
            let u = t.take(b - a as int);
            assert(u.last() == s@[b - 1 as int]);
            assert(u.drop_last() =~= t.take(b - 1 - a as int));
        }
        b -= 1;
    }
    proof {
        let u = t.take(b - a as int);
        if b == a {
            assert(u =~= Seq::<char>::empty());
        }
        assert(trim_end_spec(u) == u);
    }
    let mut out: Vec<char> = Vec::new();
    let mut j: usize = a;
    while j < b
        invariant
            a <= j <= b <= cs@.len(),
            cs@ == s@,
            out@ == s@.subrange(a as int, j as int),
        decreases b - j,
    {
        out.push(cs[j]);
        j += 1;
        proof {
            assert(out@ =~= s@.subrange(a as int, j as int));
        }
    }
    proof {
        assert(s@.subrange(a as int, b as int) =~= t.take(b - a as int));
    }
    string_from_chars(&out)
}

// ---------------------------------------------------------------------
// Duration parsing
// ---------------------------------------------------------------------

/// A decimal digit.
pub open spec fn is_digit(c: char) -> bool {
    48 <= c as u32 && c as u32 <= 57
}

/// The value of one decimal digit.
pub open spec fn digit_val(c: char) -> int {
    c as u32 - 48
}

/// Whether every character is a decimal digit (vacuously true when empty).
pub open spec fn is_digits(s: Seq<char>) -> bool {
    forall|i: int| 0 <= i < s.len() ==> is_digit(#[trigger] s[i])
}

/// The value of a digit string read in base ten; zero when empty.
pub open spec fn digits_value(s: Seq<char>) -> int
    decreases s.len(),
{
    if s.len() == 0 {
        0
    } else {
        digits_value(s.drop_last()) * 10 + digit_val(s.last())
    }
}

/// Powers of ten.
pub open spec fn pow10(n: nat) -> int
    decreases n,
{
    if n == 0 {
        1
    } else {
        10 * pow10((n - 1) as nat)
    }
}

/// Powers of ten are positive and non-decreasing.
pub proof fn lemma_pow10_le(a: nat, b: nat)
    requires
        a <= b,
    ensures
        1 <= pow10(a) <= pow10(b),
    decreases b,
{
    if b > 0 {
        if a == b {
            lemma_pow10_le((a - 1) as nat, (b - 1) as nat);
        } else {
            lemma_pow10_le(a, (b - 1) as nat);
        }
    }
}

/// Ten to the twelfth, written out.
pub proof fn lemma_pow10_12()
    ensures
        pow10(12) == 1000000000000int,
{
    assert(pow10(0) == 1);
    assert(pow10(1) == 10);
    assert(pow10(2) == 100);
    assert(pow10(3) == 1000);
    assert(pow10(4) == 10000);
    assert(pow10(5) == 100000);
    assert(pow10(6) == 1000000);
    assert(pow10(7) == 10000000);
    assert(pow10(8) == 100000000);
    assert(pow10(9) == 1000000000);
    assert(pow10(10) == 10000000000int);
    assert(pow10(11) == 100000000000int);
    assert(pow10(12) == 1000000000000int);
}

/// The value of a fractional part in milliseconds: the first three
/// fractional digits, further precision truncated.
pub open spec fn frac_millis(s: Seq<char>) -> int {
    (if s.len() >= 1 {
        digit_val(s[0]) * 100
    } else {
        0
    }) + (if s.len() >= 2 {
        digit_val(s[1]) * 10
    } else {
        0
    }) + (if s.len() >= 3 {
        digit_val(s[2])
    } else {
        0
    })
}

/// A duration in seconds, parsed from a plain decimal — optional digits,
/// an optional dot, optional fractional digits, at least one digit in
/// all — into milliseconds, truncated to the millisecond. Signs,
/// exponents and whole parts of more than `MAX_DURATION_DIGITS` digits
/// are not accepted.
pub open spec fn spec_parse_millis(s: Seq<char>) -> Option<u64> {
    let parts = split_spec(s, '.');
    if parts.len() <= 2 {
        let whole = parts[0];
        let frac = if parts.len() == 2 {
            parts[1]
        } else {
            Seq::<char>::empty()
        };
        if is_digits(whole) && is_digits(frac) && whole.len() + frac.len() >= 1 && whole.len()
            <= MAX_DURATION_DIGITS {
            Some((digits_value(whole) * 1000 + frac_millis(frac)) as u64)
        } else {
            None
        }
    } else {
        None
    }
}

/// Whether every character of a string is a decimal digit.
fn check_digits(s: &str) -> (r: bool)
    ensures
        r == is_digits(s@),
{
    let len = s.unicode_len();
    let mut i: usize = 0;
    while i < len
        invariant
            i <= len,
            len == s@.len(),
            forall|j: int| 0 <= j < i ==> is_digit(#[trigger] s@[j]),
        decreases len - i,
    {
        let c = s.get_char(i);
        let n = c as u32;
        if n < 48 || n > 57 {
            return false;
        }
        i += 1;
    }
    true
}

/// The base-ten value of a digit string of bounded length.
fn digits_value_exec(s: &str) -> (r: u64)
    requires
        is_digits(s@),
        s@.len() <= MAX_DURATION_DIGITS,
    ensures
        r as int == digits_value(s@),
        r < 1000000000000u64,
{
    proof {
        lemma_pow10_12();
    }
    let len = s.unicode_len();
    let mut acc: u64 = 0;
    let mut i: usize = 0;
    proof {
        assert(s@.take(0) =~= Seq::<char>::empty());
    }
    while i < len
        invariant
            i <= len,
            len == s@.len() <= 12,
            is_digits(s@),
            acc as int == digits_value(s@.take(i as int)),
            (acc as int) < pow10(i as nat),
            pow10(12) == 1000000000000int,
        decreases len - i,
    {
        let c = s.get_char(i);
        let d = (c as u32) - 48;
        proof {
            assert(is_digit(s@[i as int]));
            lemma_pow10_le(i as nat + 1, 12);
            assert(pow10(i as nat + 1) == 10 * pow10(i as nat));
            assert(s@.take(i as int + 1).drop_last() =~= s@.take(i as int));
            assert(s@.take(i as int + 1).last() == s@[i as int]);
        }
        acc = acc * 10 + (d as u64);
        i += 1;
    }
    proof {
        assert(s@.take(len as int) =~= s@);
        lemma_pow10_le(len as nat, 12);
    }
    acc
}

/// The milliseconds contributed by the fractional digits.
fn frac_millis_exec(s: &str) -> (r: u64)
    requires
        is_digits(s@),
    ensures
        r as int == frac_millis(s@),
        r < 1000,
{
    let len = s.unicode_len();
    let mut r: u64 = 0;
    if len >= 1 {
        proof {
            assert(is_digit(s@[0]));
        }
        r += (((s.get_char(0) as u32) - 48) * 100) as u64;
    }
    if len >= 2 {
        proof {
            assert(is_digit(s@[1]));
        }
        r += (((s.get_char(1) as u32) - 48) * 10) as u64;
    }
    if len >= 3 {
        proof {
            assert(is_digit(s@[2]));
        }
        r += ((s.get_char(2) as u32) - 48) as u64;
    }
    r
}

/// Parse a duration in seconds into milliseconds, or report that the
/// text is not a plain non-negative decimal.
pub fn parse_millis(s: &str) -> (r: Option<u64>)
    ensures
        r == spec_parse_millis(s@),
{
    let parts = split_string(s, '.');
    proof {
        lemma_split_len(s@, '.');
    }
    if parts.len() > 2 {
        return None;
    }
    let whole = &parts[0];
    if !check_digits(whole.as_str()) {
        return None;
    }
    if whole.as_str().unicode_len() > MAX_DURATION_DIGITS {
        return None;
    }
    let frac_ok;
    let frac_len;
    let frac_val;
    if parts.len() == 2 {
        let frac = &parts[1];
        frac_ok = check_digits(frac.as_str());
        frac_len = frac.as_str().unicode_len();
        if frac_ok {
            frac_val = frac_millis_exec(frac.as_str());
        } else {
            frac_val = 0;
        }
    } else {
        frac_ok = true;
        frac_len = 0;
        frac_val = 0;
        proof {
            assert(is_digits(Seq::<char>::empty()));
            assert(frac_millis(Seq::<char>::empty()) == 0);
        }
    }
    if !frac_ok {
        return None;
    }
    let whole_len = whole.as_str().unicode_len();
    if whole_len == 0 && frac_len == 0 {
        return None;
    }
    let w = digits_value_exec(whole.as_str());
    Some(w * 1000 + frac_val)
}

// ---------------------------------------------------------------------
// Debug-flag parsing
// ---------------------------------------------------------------------

/// A boolean written exactly as `true` or `false`.
pub open spec fn spec_parse_bool(s: Seq<char>) -> Option<bool> {
    if s == "true"@ {
        Some(true)
    } else if s == "false"@ {
        Some(false)
    } else {
        None
    }
}

/// Parse the debug flag.
pub fn parse_bool(s: &str) -> (r: Option<bool>)
    ensures
        r == spec_parse_bool(s@),
{
    if str_eq(s, "true") {
        Some(true)
    } else if str_eq(s, "false") {
        Some(false)
    } else {
        None
    }
}

// ---------------------------------------------------------------------
// The configuration record
// ---------------------------------------------------------------------

/// The default trigger set: the four primary movement keys and both
/// mouse buttons.
pub open spec fn default_trigger_labels() -> Seq<Seq<char>> {
    seq!["w"@, "a"@, "s"@, "d"@, "leftbutton"@, "rightbutton"@]
}

/// The default trigger labels, as strings.
pub fn default_triggers() -> (r: Vec<String>)
    ensures
        r@.map_values(|l: String| l@) == default_trigger_labels(),
{
    let mut v: Vec<String> = Vec::new();
    v.push(String::from_str("w"));
    v.push(String::from_str("a"));
    v.push(String::from_str("s"));
    v.push(String::from_str("d"));
    v.push(String::from_str("leftbutton"));
    v.push(String::from_str("rightbutton"));
    proof {
        assert(v@.map_values(|l: String| l@) =~= default_trigger_labels());
    }
    v
}

/// A loaded configuration, as contracts see it.
pub struct ConfigView {
    /// The configured trigger labels, trimmed and normalized.
    pub triggers: Seq<Seq<char>>,
    /// The blackout duration, in milliseconds.
    pub duration_millis: u64,
    /// Whether observed event labels should be logged.
    pub debugging: bool,
}

/// A loaded configuration.
pub struct Config {
    /// The configured trigger labels, trimmed and normalized.
    pub triggers: Vec<String>,
    /// The blackout duration, in milliseconds.
    pub duration_millis: u64,
    /// Whether observed event labels should be logged.
    pub debugging: bool,
}

impl View for Config {
    type V = ConfigView;

    open spec fn view(&self) -> ConfigView {
        ConfigView {
            triggers: self.triggers@.map_values(|l: String| l@),
            duration_millis: self.duration_millis,
            debugging: self.debugging,
        }
    }
}

/// The lines of the configuration text, each trimmed.
pub open spec fn spec_lines(s: Seq<char>) -> Seq<Seq<char>> {
    split_spec(s, '\n').map_values(|l: Seq<char>| trim_spec(l))
}

/// The trigger labels of the first line: comma-separated, each trimmed
/// and lowercased.
pub open spec fn spec_triggers_of(line: Seq<char>) -> Seq<Seq<char>> {
    split_spec(line, ',').map_values(|t: Seq<char>| lower_seq(trim_spec(t)))
}

/// What loading yields for given file contents, or for a missing or
/// unreadable file.
pub open spec fn spec_load_config(contents: Option<Seq<char>>) -> ConfigView {
    match contents {
        None => ConfigView {
            triggers: default_trigger_labels(),
            duration_millis: DEFAULT_DURATION_MILLIS,
            debugging: false,
        },
        Some(s) => {
            let lines = spec_lines(s);
            ConfigView {
                triggers: if lines[0].len() == 0 {
                    default_trigger_labels()
                } else {
                    spec_triggers_of(lines[0])
                },
                duration_millis: if lines.len() >= 2 {
                    match spec_parse_millis(lines[1]) {
                        Some(d) => d,
                        None => DEFAULT_DURATION_MILLIS,
                    }
                } else {
                    DEFAULT_DURATION_MILLIS
                },
                debugging: if lines.len() >= 3 {
                    match spec_parse_bool(lines[2]) {
                        Some(b) => b,
                        None => false,
                    }
                } else {
                    false
                },
            }
        },
    }
}

/// Load the configuration from the file contents the host read, or from
/// nothing when the file was missing or unreadable. Loading never fails:
/// a blank trigger line yields the default triggers, an unparsable
/// duration or flag yields its default.
pub fn load_config(contents: Option<&str>) -> (r: Config)
    ensures
        r@ == spec_load_config(
            match contents {
                Some(c) => Some(c@),
                None => None,
            },
        ),
{
    match contents {
        None => {
            let r = Config {
                triggers: default_triggers(),
                duration_millis: DEFAULT_DURATION_MILLIS,
                debugging: false,
            };
            r
        },
        Some(s) => {
            let raw_lines = split_string(s, '\n');
            proof {
                lemma_split_len(s@, '\n');
            }
            proof {
                assert forall|k: int| 0 <= k < raw_lines@.len() implies raw_lines@[k]@
                    == split_spec(s@, '\n')[k] by {
                    assert(raw_lines@.map_values(|p: String| p@)[k] == raw_lines@[k]@);
                }
            }
            let mut lines: Vec<String> = Vec::new();
            let mut i: usize = 0;
            while i < raw_lines.len()
                invariant
                    i <= raw_lines@.len(),
                    raw_lines@.map_values(|p: String| p@) == split_spec(s@, '\n'),
                    forall|k: int|
                        0 <= k < raw_lines@.len() ==> #[trigger] raw_lines@[k]@ == split_spec(
                            s@,
                            '\n',
                        )[k],
                    lines@.len() == i,
                    forall|k: int|
                        0 <= k < i ==> #[trigger] lines@[k]@ == trim_spec(split_spec(s@, '\n')[k]),
                decreases raw_lines@.len() - i,
            {
                let t = trim_string(raw_lines[i].as_str());
                lines.push(t);
                i += 1;
            }
            proof {
                assert(lines@.map_values(|l: String| l@) =~~= spec_lines(s@));
                assert(lines@.len() >= 1);
            }
            let duration_millis = if lines.len() >= 2 {
                match parse_millis(lines[1].as_str()) {
                    Some(d) => d,
                    None => DEFAULT_DURATION_MILLIS,
                }
            } else {
                DEFAULT_DURATION_MILLIS
            };
            let debugging = if lines.len() >= 3 {
                match parse_bool(lines[2].as_str()) {
                    Some(b) => b,
                    None => false,
                }
            } else {
                false
            };
            let triggers = if lines[0].as_str().unicode_len() == 0 {
                default_triggers()
            } else {
                let ghost line0 = lines@[0]@;
                let segs = split_string(lines[0].as_str(), ',');
                proof {
                    assert forall|k: int| 0 <= k < segs@.len() implies segs@[k]@ == split_spec(
                        line0,
                        ',',
                    )[k] by {
                        assert(segs@.map_values(|p: String| p@)[k] == segs@[k]@);
                    }
                }
                let mut ts: Vec<String> = Vec::new();
                let mut j: usize = 0;
                while j < segs.len()
                    invariant
                        j <= segs@.len(),
                        segs@.map_values(|p: String| p@) == split_spec(line0, ','),
                        forall|k: int|
                            0 <= k < segs@.len() ==> #[trigger] segs@[k]@ == split_spec(
                                line0,
                                ',',
                            )[k],
                        ts@.len() == j,
                        forall|k: int|
                            0 <= k < j ==> #[trigger] ts@[k]@ == lower_seq(
                                trim_spec(split_spec(line0, ',')[k]),
                            ),
                    decreases segs@.len() - j,
                {
                    let t = trim_string(segs[j].as_str());
                    ts.push(to_lowercase(t.as_str()));
                    j += 1;
                }
                proof {
                    assert(ts@.map_values(|l: String| l@) =~~= spec_triggers_of(line0));
                }
                ts
            };
            let r = Config { triggers, duration_millis, debugging };
            proof {
                assert(r@.triggers =~~= spec_load_config(Some(s@)).triggers);
            }
            r
        },
    }
}

} // verus!
