//! Status reports of the transport's intermediary: `key=value` lines, of
//! which `status`, `serial`, `version` and `pid` are read.

use crate::session::ConnectorError;
use vstd::prelude::*;

verus! {

/// Health of the intermediary and of the device behind it.
pub struct Status {
    /// Status message, e.g. "OK".
    pub message: String,
    /// Serial number of the device; `None` where the report gives `*`.
    pub serial: Option<String>,
    /// Version of the intermediary.
    pub version: String,
    /// Process id of the intermediary.
    pub pid: u32,
}

/// `s` cut at every `sep`, as `str::split` does: one piece more than there
/// are separators.
pub open spec fn split_on(s: Seq<char>, sep: char) -> Seq<Seq<char>>
    decreases s.len(),
{
    if s.len() == 0 {
        seq![Seq::empty()]
    } else {
        let init = split_on(s.drop_last(), sep);
        if s.last() == sep {
            init.push(Seq::empty())
        } else {
            init.update(init.len() - 1, init.last().push(s.last()))
        }
    }
}

/// The values read so far for `status`, `serial`, `version` and `pid`.
pub type Fields = (Option<Seq<char>>, Option<Seq<char>>, Option<Seq<char>>, Option<Seq<char>>);

/// The line has exactly one `=`, at `e`.
pub open spec fn sole_eq_at(line: Seq<char>, e: int) -> bool {
    &&& 0 <= e < line.len()
    &&& line[e] == '='
    &&& forall|j: int| 0 <= j < line.len() && j != e ==> line[j] != '='
}

/// Read one line into the fields: empty lines are skipped; any other line
/// must hold exactly one `=`, between key and value; the last value of a key
/// wins and unknown keys are ignored.
pub open spec fn apply_line(f: Fields, line: Seq<char>) -> Option<Fields> {
    if line.len() == 0 {
        Some(f)
    } else if !(exists|e: int| sole_eq_at(line, e)) {
        None
    } else {
        let e = choose|e: int| sole_eq_at(line, e);
        let key = line.subrange(0, e);
        let value = line.subrange(e + 1, line.len() as int);
        if key == seq!['s', 't', 'a', 't', 'u', 's'] {
            Some((Some(value), f.1, f.2, f.3))
        } else if key == seq!['s', 'e', 'r', 'i', 'a', 'l'] {
            Some((f.0, Some(value), f.2, f.3))
        } else if key == seq!['v', 'e', 'r', 's', 'i', 'o', 'n'] {
            Some((f.0, f.1, Some(value), f.3))
        } else if key == seq!['p', 'i', 'd'] {
            Some((f.0, f.1, f.2, Some(value)))
        } else {
            Some(f)
        }
    }
}

/// The fields read from a sequence of lines, or `None` for a malformed line.
pub open spec fn read_fields(lines: Seq<Seq<char>>) -> Option<Fields>
    decreases lines.len(),
{
    if lines.len() == 0 {
        Some((None, None, None, None))
    } else {
        match read_fields(lines.drop_last()) {
            None => None,
            Some(f) => apply_line(f, lines.last()),
        }
    }
}

proof fn lemma_read_fields_none_prefix(lines: Seq<Seq<char>>, k: int)
    requires
        0 <= k <= lines.len(),
        read_fields(lines.subrange(0, k)) is None,
    ensures
        read_fields(lines) is None,
    decreases lines.len() - k,
{
    if k < lines.len() {
        assert(lines.subrange(0, k + 1).drop_last() == lines.subrange(0, k));
        lemma_read_fields_none_prefix(lines, k + 1);
    } else {
        assert(lines.subrange(0, k) == lines);
    }
}

/// Value of a string of decimal digits.
pub open spec fn digits_value(d: Seq<char>) -> nat
    decreases d.len(),
{
    if d.len() == 0 {
        0
    } else {
        digits_value(d.drop_last()) * 10 + ((d.last() as u32 - '0' as u32) as nat)
    }
}

pub open spec fn is_digit(c: char) -> bool {
    '0' <= c && c <= '9'
}

/// `s` without one leading `+`.
pub open spec fn strip_plus(s: Seq<char>) -> Seq<char> {
    if s.len() > 0 && s[0] == '+' {
        s.subrange(1, s.len() as int)
    } else {
        s
    }
}

pub open spec fn all_digits(d: Seq<char>) -> bool {
    forall|i: int| 0 <= i < d.len() ==> is_digit(#[trigger] d[i])
}

/// A `u32` written in decimal, as `str::parse::<u32>` reads it: an optional
/// `+`, then at least one digit and nothing else, with a value that fits.
pub open spec fn parse_u32(s: Seq<char>) -> Option<u32> {
    let d = strip_plus(s);
    if d.len() == 0 || !all_digits(d) {
        None
    } else if digits_value(d) > 0xffff_ffff {
        None
    } else {
        Some(digits_value(d) as u32)
    }
}

/// The status report that `s` holds, or `None` for a malformed report:
/// a malformed line, a missing key or a PID that is no `u32`. A serial of
/// `*` means none.
pub open spec fn parse_status(s: Seq<char>) -> Option<(Seq<char>, Option<Seq<char>>, Seq<char>, u32)> {
    match read_fields(split_on(s, '\n')) {
        None => None,
        Some(f) => if f.0 is None || f.1 is None || f.2 is None || f.3 is None {
            None
        } else {
            match parse_u32(f.3.unwrap()) {
                None => None,
                Some(pid) => Some(
                    (
                        f.0.unwrap(),
                        if f.1.unwrap() == seq!['*'] {
                            None
                        } else {
                            f.1
                        },
                        f.2.unwrap(),
                        pid,
                    ),
                ),
            }
        },
    }
}

proof fn lemma_digits_value_prefix(d: Seq<char>, i: int, j: int)
    requires
        0 <= i <= j <= d.len(),
    ensures
        digits_value(d.subrange(0, i)) <= digits_value(d.subrange(0, j)),
    decreases j - i,
{
    if i < j {
        lemma_digits_value_prefix(d, i, j - 1);
        assert(d.subrange(0, j).drop_last() == d.subrange(0, j - 1));
    }
}

/// Read the decimal `u32` in `c[lo..hi]`.
pub(crate) fn parse_u32_chars(c: &Vec<char>, lo: usize, hi: usize) -> (r: Option<u32>)
    requires
        lo <= hi <= c@.len(),
    ensures
        r == parse_u32(c@.subrange(lo as int, hi as int)),
{
    let ghost s = c@.subrange(lo as int, hi as int);
    let mut start = lo;
    if lo < hi && c[lo] == '+' {
        start = lo + 1;
    }
    let ghost d = c@.subrange(start as int, hi as int);
    assert(d == strip_plus(s));
    if start == hi {
        return None;
    }
    let mut value: u32 = 0;
    let mut i = start;
    let mut digits_only = true;
    while i < hi
        invariant
            lo <= start <= i <= hi <= c@.len(),
            start < hi,
            s == c@.subrange(lo as int, hi as int),
            d == c@.subrange(start as int, hi as int),
            d == strip_plus(s),
            digits_only ==> forall|k: int| 0 <= k < i - start ==> is_digit(d[k]),
            digits_only ==> value as nat == digits_value(d.subrange(0, i - start)),
            !digits_only ==> exists|k: int| 0 <= k < d.len() && !is_digit(d[k]),
        decreases hi - i,
    {
        let ch = c[i];
        if !('0' <= ch && ch <= '9') {
            digits_only = false;
            assert(!is_digit(d[i - start]));
            i = hi;
        } else if digits_only {
            let digit = (ch as u32) - ('0' as u32);
            assert(d.subrange(0, i + 1 - start).drop_last() == d.subrange(0, i - start));
            if value > 429496729 || (value == 429496729 && digit > 5) {
                proof {
                    lemma_digits_value_prefix(d, i + 1 - start, d.len() as int);
                    assert(d.subrange(0, d.len() as int) == d);
                    assert(d.subrange(0, i + 1 - start).last() == ch);
                    assert(digits_value(d.subrange(0, i + 1 - start)) == value as nat * 10
                        + digit as nat);
                    assert(value as nat * 10 + digit as nat > 0xffff_ffff) by (nonlinear_arith)
                        requires
                            value > 429496729 || (value == 429496729 && digit > 5),
                    ;
                    if all_digits(d) {
                        assert(digits_value(d) > 0xffff_ffff);
                        assert(d.len() > 0);
                        assert(parse_u32(s) is None);
                    } else {
                        assert(parse_u32(s) is None);
                    }
                }
                return None;
            }
            value = value * 10 + digit;
            i = i + 1;
        } else {
            i = i + 1;
        }
    }
    if !digits_only {
        proof {
            let k = choose|k: int| 0 <= k < d.len() && !is_digit(d[k]);
            assert(!is_digit(d[k]));
            assert(!all_digits(d));
        }
        return None;
    }
    assert(d.subrange(0, hi - start) == d);
    Some(value)
}

/// Field values as ranges of a character vector.
pub type FieldRanges = (
    Option<(usize, usize)>,
    Option<(usize, usize)>,
    Option<(usize, usize)>,
    Option<(usize, usize)>,
);

pub open spec fn range_view(c: Seq<char>, o: Option<(usize, usize)>) -> Option<Seq<char>> {
    match o {
        Some((a, b)) => Some(c.subrange(a as int, b as int)),
        None => None,
    }
}

pub open spec fn ranges_ok(c: Seq<char>, f: FieldRanges) -> bool {
    &&& (f.0 matches Some((a, b)) ==> a <= b <= c.len())
    &&& (f.1 matches Some((a, b)) ==> a <= b <= c.len())
    &&& (f.2 matches Some((a, b)) ==> a <= b <= c.len())
    &&& (f.3 matches Some((a, b)) ==> a <= b <= c.len())
}

pub open spec fn fields_view(c: Seq<char>, f: FieldRanges) -> Fields {
    (range_view(c, f.0), range_view(c, f.1), range_view(c, f.2), range_view(c, f.3))
}

/// Whether `c[a..b]` spells `lit`.
pub(crate) fn range_is(c: &Vec<char>, a: usize, b: usize, lit: &[char]) -> (r: bool)
    requires
        a <= b <= c@.len(),
    ensures
        r == (c@.subrange(a as int, b as int) == lit@),
{
    if b - a != lit.len() {
        return false;
    }
    let mut i: usize = 0;
    while i < lit.len()
        invariant
            a <= b <= c@.len(),
            b - a == lit@.len(),
            i <= lit@.len(),
            forall|j: int| 0 <= j < i ==> c@[a + j] == lit@[j],
        decreases lit@.len() - i,
    {
        if c[a + i] != lit[i] {
            assert(c@.subrange(a as int, b as int)[i as int] != lit@[i as int]);
            return false;
        }
        i = i + 1;
    }
    assert(c@.subrange(a as int, b as int) == lit@);
    true
}

/// Read the line `c[a..b]` into the fields.
fn apply_line_range(c: &Vec<char>, a: usize, b: usize, f: FieldRanges) -> (r: Option<FieldRanges>)
    requires
        a <= b <= c@.len(),
        ranges_ok(c@, f),
    ensures
        r matches Some(g) ==> ranges_ok(c@, g) && apply_line(fields_view(c@, f), c@.subrange(a as int, b as int))
            == Some(fields_view(c@, g)),
        r is None ==> apply_line(fields_view(c@, f), c@.subrange(a as int, b as int)) is None,
{
    let ghost line = c@.subrange(a as int, b as int);
    if a == b {
        return Some(f);
    }
    let mut eq: Option<usize> = None;
    let mut j = a;
    while j < b
        invariant
            a <= j <= b <= c@.len(),
            line == c@.subrange(a as int, b as int),
            eq matches Some(e) ==> a <= e < j && c@[e as int] == '=' && forall|k: int|
                a <= k < j && k != e ==> c@[k] != '=',
            eq is None ==> forall|k: int| a <= k < j ==> c@[k] != '=',
        decreases b - j,
    {
        if c[j] == '=' {
            match eq {
                Some(e) => {
                    proof {
                        assert(forall|x: int| #![trigger sole_eq_at(line, x)] !sole_eq_at(line, x)) by {
                            assert forall|x: int| !sole_eq_at(line, x) by {
                                if sole_eq_at(line, x) {
                                    assert(line[e - a] == '=');
                                    assert(line[j - a] == '=');
                                }
                            }
                        }
                    }
                    return None;
                },
                None => {
                    eq = Some(j);
                },
            }
        }
        j = j + 1;
    }
    let e = match eq {
        Some(e) => e,
        None => {
            proof {
                assert forall|x: int| !sole_eq_at(line, x) by {
                    if sole_eq_at(line, x) {
                        assert(c@[a + x] == '=');
                    }
                }
            }
            return None;
        },
    };
    proof {
        assert(sole_eq_at(line, e - a));
        let x = choose|x: int| sole_eq_at(line, x);
        if x != e - a {
            assert(line[x] == '=');
        }
        assert(line.subrange(0, e - a) == c@.subrange(a as int, e as int));
        assert(line.subrange(e - a + 1, line.len() as int) == c@.subrange(e + 1, b as int));
    }
    let value = Some((e + 1, b));
    if range_is(c, a, e, &['s', 't', 'a', 't', 'u', 's']) {
        Some((value, f.1, f.2, f.3))
    } else if range_is(c, a, e, &['s', 'e', 'r', 'i', 'a', 'l']) {
        Some((f.0, value, f.2, f.3))
    } else if range_is(c, a, e, &['v', 'e', 'r', 's', 'i', 'o', 'n']) {
        Some((f.0, f.1, value, f.3))
    } else if range_is(c, a, e, &['p', 'i', 'd']) {
        Some((f.0, f.1, f.2, value))
    } else {
        Some(f)
    }
}

/// The lines of `c`: the bounds of each piece between newlines.
fn line_bounds(c: &Vec<char>) -> (r: Vec<(usize, usize)>)
    ensures
        r@.len() == split_on(c@, '\n').len(),
        forall|k: int|
            0 <= k < r@.len() ==> (#[trigger] r@[k]).0 <= r@[k].1 <= c@.len() && split_on(c@, '\n')[k]
                == c@.subrange(r@[k].0 as int, r@[k].1 as int),
{
    let mut done: Vec<(usize, usize)> = Vec::new();
    let mut start: usize = 0;
    let mut i: usize = 0;
    assert(c@.subrange(0, 0) =~= Seq::<char>::empty());
    assert(Seq::new(0, |k: int| c@.subrange(done@[k].0 as int, done@[k].1 as int)).push(
        c@.subrange(0, 0),
    ) =~= seq![Seq::<char>::empty()]);
    while i < c.len()
        invariant
            start <= i <= c@.len(),
            split_on(c@.subrange(0, i as int), '\n') == Seq::new(
                done@.len(),
                |k: int| c@.subrange(done@[k].0 as int, done@[k].1 as int),
            ).push(c@.subrange(start as int, i as int)),
            forall|k: int| 0 <= k < done@.len() ==> (#[trigger] done@[k]).0 <= done@[k].1 <= c@.len(),
        decreases c@.len() - i,
    {
        let ghost before = Seq::new(
            done@.len(),
            |k: int| c@.subrange(done@[k].0 as int, done@[k].1 as int),
        );
        assert(c@.subrange(0, i + 1).drop_last() == c@.subrange(0, i as int));
        let ghost init = split_on(c@.subrange(0, i as int), '\n');
        assert(c@.subrange(0, i + 1).last() == c@[i as int]);
        if c[i] == '\n' {
            done.push((start, i));
            start = i + 1;
            assert(Seq::new(done@.len(), |k: int| c@.subrange(done@[k].0 as int, done@[k].1 as int))
                =~= before.push(c@.subrange(done@.last().0 as int, i as int)));
            assert(c@.subrange(start as int, i + 1) =~= Seq::<char>::empty());
            assert(split_on(c@.subrange(0, i + 1), '\n') == init.push(Seq::empty()));
        } else {
            assert(c@.subrange(start as int, i
                + 1) =~= c@.subrange(start as int, i as int).push(c@[i as int]));
            assert(split_on(c@.subrange(0, i + 1), '\n') == init.update(
                init.len() - 1,
                init.last().push(c@[i as int]),
            ));
            assert(init.update(init.len() - 1, init.last().push(c@[i as int])) =~= before.push(
                c@.subrange(start as int, i + 1),
            ));
        }
        i = i + 1;
    }
    assert(c@.subrange(0, i as int) == c@);
    let ghost before = Seq::new(done@.len(), |k: int| c@.subrange(done@[k].0 as int, done@[k].1 as int));
    done.push((start, i));
    assert(Seq::new(done@.len(), |k: int| c@.subrange(done@[k].0 as int, done@[k].1 as int))
        =~= before.push(c@.subrange(start as int, i as int)));
    assert forall|k: int| 0 <= k < done@.len() implies (#[trigger] done@[k]).0 <= done@[k].1 <= c@.len()
        && split_on(c@, '\n')[k] == c@.subrange(done@[k].0 as int, done@[k].1 as int) by {
        assert(split_on(c@, '\n')[k] == Seq::new(
            done@.len(),
            |k: int| c@.subrange(done@[k].0 as int, done@[k].1 as int),
        )[k]);
    }
    done
}

/// The characters of `s`.
pub(crate) fn chars_of(s: &str) -> (r: Vec<char>)
    ensures
        r@ == s@,
{
    let n = s.unicode_len();
    let mut out: Vec<char> = Vec::new();
    let mut i: usize = 0;
    while i < n
        invariant
            n == s@.len(),
            i <= n,
            out@ == s@.subrange(0, i as int),
        decreases n - i,
    {
        out.push(s.get_char(i));
        i = i + 1;
        assert(s@.subrange(0, i as int) == s@.subrange(0, i - 1).push(s@[i - 1]));
    }
    assert(s@.subrange(0, n as int) == s@);
    out
}

impl Status {
    /// Parse a status report: `key=value` lines separated by newlines.
    /// Empty lines are skipped, every other line must hold exactly one
    /// `=`; the keys `status`, `serial`, `version` and `pid` must all be
    /// present (the last occurrence wins; other keys are ignored), the PID
    /// must be a `u32` in decimal, and a serial of `*` means none. Any
    /// failure is a framing error of the response.
    pub fn parse(response_body: &str) -> (r: Result<Status, ConnectorError>)
        ensures
            parse_status(response_body@) matches Some(v) ==> r matches Ok(st) && st.message@ == v.0
                && (match st.serial {
                Some(x) => v.1 == Some(x@),
                None => v.1 is None,
            }) && st.version@ == v.2 && st.pid == v.3,
            parse_status(response_body@) is None ==> r == Err::<Status, ConnectorError>(
                ConnectorError::Framing,
            ),
    {
        let c = chars_of(response_body);
        let lines = line_bounds(&c);
        let ghost all = split_on(c@, '\n');
        let mut f: FieldRanges = (None, None, None, None);
        let mut k: usize = 0;
        while k < lines.len()
            invariant
                c@ == response_body@,
                all == split_on(c@, '\n'),
                lines@.len() == all.len(),
                forall|j: int|
                    0 <= j < lines@.len() ==> (#[trigger] lines@[j]).0 <= lines@[j].1 <= c@.len()
                        && all[j] == c@.subrange(lines@[j].0 as int, lines@[j].1 as int),
                k <= lines@.len(),
                ranges_ok(c@, f),
                read_fields(all.subrange(0, k as int)) == Some(fields_view(c@, f)),
            decreases lines@.len() - k,
        {
            let (a, b) = lines[k];
            assert(all[k as int] == c@.subrange(a as int, b as int));
            assert(all.subrange(0, k + 1).drop_last() == all.subrange(0, k as int));
            match apply_line_range(&c, a, b, f) {
                Some(g) => {
                    f = g;
                },
                None => {
                    proof {
                        lemma_read_fields_none_prefix(all, k + 1);
                    }
                    return Err(ConnectorError::Framing);
                },
            }
            k = k + 1;
        }
        assert(all.subrange(0, k as int) == all);
        let (m, se, ve, pi) = match f {
            (Some(m), Some(se), Some(ve), Some(pi)) => (m, se, ve, pi),
            _ => {
                return Err(ConnectorError::Framing);
            },
        };
        let pid = match parse_u32_chars(&c, pi.0, pi.1) {
            Some(p) => p,
            None => {
                return Err(ConnectorError::Framing);
            },
        };
        let message = response_body.substring_char(m.0, m.1).to_owned();
        let star = ['*'];
        assert(star@ =~= seq!['*']);
        let serial = if range_is(&c, se.0, se.1, &star) {
            None
        } else {
            Some(response_body.substring_char(se.0, se.1).to_owned())
        };
        let version = response_body.substring_char(ve.0, ve.1).to_owned();
        proof {
            let fv = fields_view(c@, f);
            assert(read_fields(split_on(response_body@, '\n')) == Some(fv));
            assert(fv.1 == Some(c@.subrange(se.0 as int, se.1 as int)));
            assert(parse_u32(fv.3.unwrap()) == Some(pid));
            assert(message@ == fv.0.unwrap());
            assert(version@ == fv.2.unwrap());
        }
        Ok(Status { message, serial, version, pid })
    }
}

} // verus!
