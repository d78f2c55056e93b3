//! The textual format of the cache snapshot: a small JSON reader and writer.
//!
//! The reader is lenient where the snapshot schema allows it: whitespace
//! between tokens, members in any order, and unknown members, whose values
//! are skipped wholesale, are all accepted. The writer produces one
//! canonical rendering, and the reader is proved to read every canonical
//! rendering back (`lemma_snapshot_round_trip`).

use vstd::prelude::*;

verus! {

// ------------------------------------------------------------------
// Character classes
// ------------------------------------------------------------------

pub open spec fn is_ws(c: char) -> bool {
    c == ' ' || c == '\t' || c == '\n' || c == '\r'
}

pub open spec fn is_digit(c: char) -> bool {
    '0' <= c && c <= '9'
}

/// Numeric value of a decimal digit character.
pub open spec fn digit_val(c: char) -> u64 {
    ((c as u64) - 48) as u64
}

/// Decimal digit character of a value below ten.
pub open spec fn digit_char(d: u64) -> char {
    ((d + 48) as u8) as char
}

fn is_ws_char(c: char) -> (r: bool)
    ensures
        r == is_ws(c),
{
    c == ' ' || c == '\t' || c == '\n' || c == '\r'
}

// ------------------------------------------------------------------
// Whitespace
// ------------------------------------------------------------------

/// First position at or after `i` that does not hold whitespace.
pub open spec fn spec_skip_ws(s: Seq<char>, i: int) -> int
    decreases s.len() - i
        when 0 <= i <= s.len()
{
    if i < s.len() && is_ws(s[i]) {
        spec_skip_ws(s, i + 1)
    } else {
        i
    }
}

pub proof fn lemma_skip_ws_bounds(s: Seq<char>, i: int)
    requires
        0 <= i <= s.len(),
    ensures
        i <= spec_skip_ws(s, i) <= s.len(),
    decreases s.len() - i,
{
    if i < s.len() && is_ws(s[i]) {
        lemma_skip_ws_bounds(s, i + 1);
    }
}

pub fn skip_ws(s: &Vec<char>, i: usize) -> (j: usize)
    requires
        i <= s@.len(),
    ensures
        j as int == spec_skip_ws(s@, i as int),
        i <= j <= s@.len(),
{
    let mut j = i;
    while j < s.len() && is_ws_char(s[j])
        invariant
            i <= j <= s@.len(),
            spec_skip_ws(s@, i as int) == spec_skip_ws(s@, j as int),
        decreases s@.len() - j,
    {
        j += 1;
    }
    j
}

// ------------------------------------------------------------------
// Numbers (unsigned decimal integers)
// ------------------------------------------------------------------

/// Consumes decimal digits, accumulating onto `acc`; `None` when the value
/// does not fit in a `u64`.
pub open spec fn spec_parse_digits(s: Seq<char>, i: int, acc: u64) -> Option<(u64, int)>
    decreases s.len() - i
        when 0 <= i <= s.len()
{
    if i < s.len() && is_digit(s[i]) {
        if acc > (u64::MAX - digit_val(s[i])) / 10 {
            None
        } else {
            spec_parse_digits(s, i + 1, (acc * 10 + digit_val(s[i])) as u64)
        }
    } else {
        Some((acc, i))
    }
}

/// Parses a number: at least one digit, greedily consumed.
pub open spec fn spec_parse_number(s: Seq<char>, i: int) -> Option<(u64, int)> {
    if 0 <= i && i < s.len() && is_digit(s[i]) {
        spec_parse_digits(s, i, 0u64)
    } else {
        None
    }
}

pub proof fn lemma_parse_digits_bounds(s: Seq<char>, i: int, acc: u64)
    requires
        0 <= i <= s.len(),
    ensures
        spec_parse_digits(s, i, acc) matches Some(p) ==> i <= p.1 <= s.len(),
    decreases s.len() - i,
{
    if i < s.len() && is_digit(s[i]) && !(acc > (u64::MAX - digit_val(s[i])) / 10) {
        lemma_parse_digits_bounds(s, i + 1, (acc * 10 + digit_val(s[i])) as u64);
    }
}

pub proof fn lemma_parse_number_bounds(s: Seq<char>, i: int)
    requires
        0 <= i <= s.len(),
    ensures
        spec_parse_number(s, i) matches Some(p) ==> i < p.1 <= s.len(),
    decreases s.len() - i,
{
    if i < s.len() && is_digit(s[i]) {
        lemma_parse_digits_bounds(s, i + 1, digit_val(s[i]));
    }
}

pub fn parse_number(s: &Vec<char>, i: usize) -> (r: Option<(u64, usize)>)
    requires
        i <= s@.len(),
    ensures
        r matches Some(p) ==> spec_parse_number(s@, i as int) == Some((p.0, p.1 as int)) && i < p.1
            <= s@.len(),
        r is None ==> spec_parse_number(s@, i as int) is None,
{
    if i >= s.len() {
        return None;
    }
    let c0 = s[i];
    if !(c0 >= '0' && c0 <= '9') {
        return None;
    }
    let mut acc: u64 = (c0 as u64) - 48;
    let mut j = i + 1;
    while j < s.len() && s[j] >= '0' && s[j] <= '9'
        invariant
            i < j <= s@.len(),
            spec_parse_number(s@, i as int) == spec_parse_digits(s@, j as int, acc),
        decreases s@.len() - j,
    {
        let d: u64 = (s[j] as u64) - 48;
        if acc > (u64::MAX - d) / 10 {
            return None;
        }
        acc = acc * 10 + d;
        j += 1;
    }
    Some((acc, j))
}

// ------------------------------------------------------------------
// Strings
// ------------------------------------------------------------------

/// Consumes the tail of a string (after the opening quote), accumulating the
/// unescaped characters; understands the escapes the writer can need plus a
/// few common ones.
pub open spec fn spec_parse_string_body(s: Seq<char>, i: int, acc: Seq<char>) -> Option<
    (Seq<char>, int),
>
    decreases s.len() - i
        when 0 <= i <= s.len()
{
    if i >= s.len() {
        None
    } else if s[i] == '"' {
        Some((acc, i + 1))
    } else if s[i] == '\\' {
        if i + 1 < s.len() {
            let c = s[i + 1];
            if c == '"' || c == '\\' || c == '/' {
                spec_parse_string_body(s, i + 2, acc.push(c))
            } else if c == 'n' {
                spec_parse_string_body(s, i + 2, acc.push('\n'))
            } else if c == 't' {
                spec_parse_string_body(s, i + 2, acc.push('\t'))
            } else if c == 'r' {
                spec_parse_string_body(s, i + 2, acc.push('\r'))
            } else {
                None
            }
        } else {
            None
        }
    } else {
        spec_parse_string_body(s, i + 1, acc.push(s[i]))
    }
}

/// Parses a quoted string starting at `i`.
pub open spec fn spec_parse_string(s: Seq<char>, i: int) -> Option<(Seq<char>, int)> {
    if 0 <= i && i < s.len() && s[i] == '"' {
        spec_parse_string_body(s, i + 1, Seq::empty())
    } else {
        None
    }
}

pub proof fn lemma_parse_string_body_bounds(s: Seq<char>, i: int, acc: Seq<char>)
    requires
        0 <= i <= s.len(),
    ensures
        spec_parse_string_body(s, i, acc) matches Some(p) ==> i < p.1 <= s.len(),
    decreases s.len() - i,
{
    if i < s.len() && s[i] != '"' {
        if s[i] == '\\' {
            if i + 1 < s.len() {
                let c = s[i + 1];
                if c == '"' || c == '\\' || c == '/' {
                    lemma_parse_string_body_bounds(s, i + 2, acc.push(c));
                } else if c == 'n' {
                    lemma_parse_string_body_bounds(s, i + 2, acc.push('\n'));
                } else if c == 't' {
                    lemma_parse_string_body_bounds(s, i + 2, acc.push('\t'));
                } else if c == 'r' {
                    lemma_parse_string_body_bounds(s, i + 2, acc.push('\r'));
                }
            }
        } else {
            lemma_parse_string_body_bounds(s, i + 1, acc.push(s[i]));
        }
    }
}

pub proof fn lemma_parse_string_bounds(s: Seq<char>, i: int)
    requires
        0 <= i <= s.len(),
    ensures
        spec_parse_string(s, i) matches Some(p) ==> i + 2 <= p.1 <= s.len(),
{
    if 0 <= i && i < s.len() && s[i] == '"' {
        lemma_parse_string_body_bounds(s, i + 1, Seq::empty());
    }
}

pub fn parse_string_at(s: &Vec<char>, i: usize) -> (r: Option<(Vec<char>, usize)>)
    requires
        i <= s@.len(),
    ensures
        r matches Some(p) ==> spec_parse_string(s@, i as int) == Some((p.0@, p.1 as int)) && i + 2
            <= p.1 <= s@.len(),
        r is None ==> spec_parse_string(s@, i as int) is None,
{
    if i >= s.len() || s[i] != '"' {
        return None;
    }
    let mut acc: Vec<char> = Vec::new();
    let mut j = i + 1;
    loop
        invariant
            i + 1 <= j <= s@.len(),
            spec_parse_string(s@, i as int) == spec_parse_string_body(s@, j as int, acc@),
        decreases s@.len() - j,
    {
        if j >= s.len() {
            return None;
        }
        let c = s[j];
        if c == '"' {
            return Some((acc, j + 1));
        } else if c == '\\' {
            if j + 1 >= s.len() {
                return None;
            }
            let e = s[j + 1];
            if e == '"' || e == '\\' || e == '/' {
                acc.push(e);
            } else if e == 'n' {
                acc.push('\n');
            } else if e == 't' {
                acc.push('\t');
            } else if e == 'r' {
                acc.push('\r');
            } else {
                return None;
            }
            j += 2;
        } else {
            acc.push(c);
            j += 1;
        }
    }
}

// ------------------------------------------------------------------
// Escaping (the writer side of strings)
// ------------------------------------------------------------------

/// How the writer spells one character inside a quoted string.
pub open spec fn spec_escape_char(c: char) -> Seq<char> {
    if c == '"' || c == '\\' {
        seq!['\\', c]
    } else {
        seq![c]
    }
}

/// How the writer spells a whole string (without the quotes).
pub open spec fn spec_escape(s: Seq<char>) -> Seq<char>
    decreases s.len(),
{
    if s.len() == 0 {
        Seq::empty()
    } else {
        spec_escape_char(s[0]) + spec_escape(s.drop_first())
    }
}

// ------------------------------------------------------------------
// Skipping unknown values
// ------------------------------------------------------------------

/// Position just past the closing quote of a string whose opening quote
/// stands before `i`.
pub open spec fn spec_skip_str_tail(s: Seq<char>, i: int) -> Option<int>
    decreases s.len() - i
        when 0 <= i <= s.len()
{
    if i >= s.len() {
        None
    } else if s[i] == '\\' {
        if i + 1 < s.len() {
            spec_skip_str_tail(s, i + 2)
        } else {
            None
        }
    } else if s[i] == '"' {
        Some(i + 1)
    } else {
        spec_skip_str_tail(s, i + 1)
    }
}

/// Scans to the end of a container whose opening bracket stands before `i`,
/// tracking nesting depth and string state; bracket kinds are not matched
/// against each other.
pub open spec fn spec_skip_container(
    s: Seq<char>,
    i: int,
    depth: int,
    in_str: bool,
    esc: bool,
) -> Option<int>
    decreases s.len() - i
        when 0 <= i <= s.len()
{
    if i >= s.len() {
        None
    } else {
        let c = s[i];
        if in_str {
            if esc {
                spec_skip_container(s, i + 1, depth, true, false)
            } else if c == '\\' {
                spec_skip_container(s, i + 1, depth, true, true)
            } else if c == '"' {
                spec_skip_container(s, i + 1, depth, false, false)
            } else {
                spec_skip_container(s, i + 1, depth, true, false)
            }
        } else if c == '{' || c == '[' {
            spec_skip_container(s, i + 1, depth + 1, false, false)
        } else if c == '}' || c == ']' {
            if depth <= 1 {
                Some(i + 1)
            } else {
                spec_skip_container(s, i + 1, depth - 1, false, false)
            }
        } else if c == '"' {
            spec_skip_container(s, i + 1, depth, true, false)
        } else {
            spec_skip_container(s, i + 1, depth, false, false)
        }
    }
}

/// Position after a run of primitive-value characters.
pub open spec fn spec_skip_primitive(s: Seq<char>, i: int) -> int
    decreases s.len() - i
        when 0 <= i <= s.len()
{
    if i < s.len() && !(s[i] == ',' || s[i] == '}' || s[i] == ']' || is_ws(s[i])) {
        spec_skip_primitive(s, i + 1)
    } else {
        i
    }
}

/// Position after one JSON value of any shape, without validating it beyond
/// its bracket and quote structure.
pub open spec fn spec_skip_value(s: Seq<char>, i: int) -> Option<int> {
    if !(0 <= i && i < s.len()) {
        None
    } else if s[i] == '"' {
        spec_skip_str_tail(s, i + 1)
    } else if s[i] == '{' || s[i] == '[' {
        spec_skip_container(s, i + 1, 1, false, false)
    } else if s[i] == ',' || s[i] == '}' || s[i] == ']' || is_ws(s[i]) {
        None
    } else {
        Some(spec_skip_primitive(s, i + 1))
    }
}

pub proof fn lemma_skip_str_tail_bounds(s: Seq<char>, i: int)
    requires
        0 <= i <= s.len(),
    ensures
        spec_skip_str_tail(s, i) matches Some(j) ==> i < j <= s.len(),
    decreases s.len() - i,
{
    if i < s.len() {
        if s[i] == '\\' {
            if i + 1 < s.len() {
                lemma_skip_str_tail_bounds(s, i + 2);
            }
        } else if s[i] != '"' {
            lemma_skip_str_tail_bounds(s, i + 1);
        }
    }
}

pub proof fn lemma_skip_container_bounds(s: Seq<char>, i: int, depth: int, in_str: bool, esc: bool)
    requires
        0 <= i <= s.len(),
    ensures
        spec_skip_container(s, i, depth, in_str, esc) matches Some(j) ==> i < j <= s.len(),
    decreases s.len() - i,
{
    if i < s.len() {
        let c = s[i];
        if in_str {
            if esc {
                lemma_skip_container_bounds(s, i + 1, depth, true, false);
            } else if c == '\\' {
                lemma_skip_container_bounds(s, i + 1, depth, true, true);
            } else if c == '"' {
                lemma_skip_container_bounds(s, i + 1, depth, false, false);
            } else {
                lemma_skip_container_bounds(s, i + 1, depth, true, false);
            }
        } else if c == '{' || c == '[' {
            lemma_skip_container_bounds(s, i + 1, depth + 1, false, false);
        } else if c == '}' || c == ']' {
            if depth > 1 {
                lemma_skip_container_bounds(s, i + 1, depth - 1, false, false);
            }
        } else if c == '"' {
            lemma_skip_container_bounds(s, i + 1, depth, true, false);
        } else {
            lemma_skip_container_bounds(s, i + 1, depth, false, false);
        }
    }
}

pub proof fn lemma_skip_primitive_bounds(s: Seq<char>, i: int)
    requires
        0 <= i <= s.len(),
    ensures
        i <= spec_skip_primitive(s, i) <= s.len(),
    decreases s.len() - i,
{
    if i < s.len() && !(s[i] == ',' || s[i] == '}' || s[i] == ']' || is_ws(s[i])) {
        lemma_skip_primitive_bounds(s, i + 1);
    }
}

pub proof fn lemma_skip_value_bounds(s: Seq<char>, i: int)
    requires
        0 <= i <= s.len(),
    ensures
        spec_skip_value(s, i) matches Some(j) ==> i < j <= s.len(),
{
    if 0 <= i && i < s.len() {
        if s[i] == '"' {
            lemma_skip_str_tail_bounds(s, i + 1);
        } else if s[i] == '{' || s[i] == '[' {
            lemma_skip_container_bounds(s, i + 1, 1, false, false);
        } else {
            lemma_skip_primitive_bounds(s, i + 1);
        }
    }
}

/// Skips one JSON value of any shape.
pub fn skip_value(s: &Vec<char>, i: usize) -> (r: Option<usize>)
    requires
        i <= s@.len(),
    ensures
        r matches Some(j) ==> spec_skip_value(s@, i as int) == Some(j as int) && i < j <= s@.len(),
        r is None ==> spec_skip_value(s@, i as int) is None,
{
    if i >= s.len() {
        return None;
    }
    let c = s[i];
    if c == '"' {
        let mut j = i + 1;
        loop
            invariant
                i + 1 <= j <= s@.len(),
                spec_skip_value(s@, i as int) == spec_skip_str_tail(s@, j as int),
            decreases s@.len() - j,
        {
            if j >= s.len() {
                return None;
            }
            let d = s[j];
            if d == '\\' {
                if j + 1 >= s.len() {
                    return None;
                }
                j += 2;
            } else if d == '"' {
                return Some(j + 1);
            } else {
                j += 1;
            }
        }
    } else if c == '{' || c == '[' {
        let mut j = i + 1;
        let mut depth: usize = 1;
        let mut in_str = false;
        let mut esc = false;
        loop
            invariant
                i + 1 <= j <= s@.len(),
                depth <= j,
                !in_str ==> !esc,
                spec_skip_value(s@, i as int) == spec_skip_container(
                    s@,
                    j as int,
                    depth as int,
                    in_str,
                    esc,
                ),
            decreases s@.len() - j,
        {
            if j >= s.len() {
                return None;
            }
            let d = s[j];
            if in_str {
                if esc {
                    esc = false;
                } else if d == '\\' {
                    esc = true;
                } else if d == '"' {
                    in_str = false;
                }
                j += 1;
            } else if d == '{' || d == '[' {
                depth += 1;
                j += 1;
            } else if d == '}' || d == ']' {
                if depth <= 1 {
                    return Some(j + 1);
                }
                depth -= 1;
                j += 1;
            } else if d == '"' {
                in_str = true;
                j += 1;
            } else {
                j += 1;
            }
        }
    } else if c == ',' || c == '}' || c == ']' || is_ws_char(c) {
        None
    } else {
        let mut j = i + 1;
        while j < s.len() && !(s[j] == ',' || s[j] == '}' || s[j] == ']' || is_ws_char(s[j]))
            invariant
                i + 1 <= j <= s@.len(),
                spec_skip_value(s@, i as int) == Some(spec_skip_primitive(s@, j as int)),
            decreases s@.len() - j,
        {
            j += 1;
        }
        Some(j)
    }
}

// ------------------------------------------------------------------
// The snapshot schema
// ------------------------------------------------------------------

/// The mathematical content of a cache snapshot: format version, write
/// timestamp, and the `(id, last_status)` entries in file order.
pub struct SnapshotView {
    pub version: u64,
    pub timestamp: u64,
    pub entries: Seq<(Seq<char>, Seq<char>)>,
}

/// Reads the members of one `data` entry object, after its opening brace:
/// `id` and `last_status` are collected, unknown members are skipped, and
/// the object must close with both known.
pub open spec fn spec_entry_members(
    s: Seq<char>,
    i: int,
    id: Option<Seq<char>>,
    ls: Option<Seq<char>>,
) -> Option<((Seq<char>, Seq<char>), int)>
    decreases s.len() - i
        when 0 <= i <= s.len()
{
    let i0 = spec_skip_ws(s, i);
    match spec_parse_string(s, i0) {
        None => None,
        Some((key, i1)) => {
            let i2 = spec_skip_ws(s, i1);
            if i2 < s.len() && s[i2] == ':' {
                let i3 = spec_skip_ws(s, i2 + 1);
                let stepped: Option<(Option<Seq<char>>, Option<Seq<char>>, int)> = if key
                    == "id"@ {
                    match spec_parse_string(s, i3) {
                        None => None,
                        Some((v, i4)) => Some((Some(v), ls, i4)),
                    }
                } else if key == "last_status"@ {
                    match spec_parse_string(s, i3) {
                        None => None,
                        Some((v, i4)) => Some((id, Some(v), i4)),
                    }
                } else {
                    match spec_skip_value(s, i3) {
                        None => None,
                        Some(i4) => Some((id, ls, i4)),
                    }
                };
                match stepped {
                    None => None,
                    Some((id2, ls2, i4)) => {
                        let i5 = spec_skip_ws(s, i4);
                        if i5 < s.len() && s[i5] == ',' {
                            proof {
                                lemma_skip_ws_bounds(s, i);
                                lemma_parse_string_bounds(s, i0);
                                lemma_skip_ws_bounds(s, i1);
                                lemma_skip_ws_bounds(s, i2 + 1);
                                lemma_parse_string_bounds(s, i3);
                                lemma_skip_value_bounds(s, i3);
                                lemma_skip_ws_bounds(s, i4);
                            }
                            spec_entry_members(s, i5 + 1, id2, ls2)
                        } else if i5 < s.len() && s[i5] == '}' {
                            match (id2, ls2) {
                                (Some(a), Some(b)) => Some(((a, b), i5 + 1)),
                                _ => None,
                            }
                        } else {
                            None
                        }
                    },
                }
            } else {
                None
            }
        },
    }
}

pub proof fn lemma_entry_members_bounds(
    s: Seq<char>,
    i: int,
    id: Option<Seq<char>>,
    ls: Option<Seq<char>>,
)
    requires
        0 <= i <= s.len(),
    ensures
        spec_entry_members(s, i, id, ls) matches Some(p) ==> i < p.1 <= s.len(),
    decreases s.len() - i,
{
    let i0 = spec_skip_ws(s, i);
    lemma_skip_ws_bounds(s, i);
    match spec_parse_string(s, i0) {
        None => {},
        Some((key, i1)) => {
            lemma_parse_string_bounds(s, i0);
            let i2 = spec_skip_ws(s, i1);
            lemma_skip_ws_bounds(s, i1);
            if i2 < s.len() && s[i2] == ':' {
                let i3 = spec_skip_ws(s, i2 + 1);
                lemma_skip_ws_bounds(s, i2 + 1);
                lemma_parse_string_bounds(s, i3);
                lemma_skip_value_bounds(s, i3);
                let stepped: Option<(Option<Seq<char>>, Option<Seq<char>>, int)> = if key
                    == "id"@ {
                    match spec_parse_string(s, i3) {
                        None => None,
                        Some((v, i4)) => Some((Some(v), ls, i4)),
                    }
                } else if key == "last_status"@ {
                    match spec_parse_string(s, i3) {
                        None => None,
                        Some((v, i4)) => Some((id, Some(v), i4)),
                    }
                } else {
                    match spec_skip_value(s, i3) {
                        None => None,
                        Some(i4) => Some((id, ls, i4)),
                    }
                };
                match stepped {
                    None => {},
                    Some((id2, ls2, i4)) => {
                        let i5 = spec_skip_ws(s, i4);
                        lemma_skip_ws_bounds(s, i4);
                        if i5 < s.len() && s[i5] == ',' {
                            lemma_entry_members_bounds(s, i5 + 1, id2, ls2);
                        }
                    },
                }
            }
        },
    }
}

/// Parses one `data` entry: a brace-delimited object.
pub open spec fn spec_parse_entry(s: Seq<char>, i: int) -> Option<((Seq<char>, Seq<char>), int)> {
    if 0 <= i && i <= s.len() {
        let i0 = spec_skip_ws(s, i);
        if i0 < s.len() && s[i0] == '{' {
            spec_entry_members(s, i0 + 1, None, None)
        } else {
            None
        }
    } else {
        None
    }
}

pub proof fn lemma_parse_entry_bounds(s: Seq<char>, i: int)
    requires
        0 <= i <= s.len(),
    ensures
        spec_parse_entry(s, i) matches Some(p) ==> i < p.1 <= s.len(),
{
    let i0 = spec_skip_ws(s, i);
    lemma_skip_ws_bounds(s, i);
    if i0 < s.len() && s[i0] == '{' {
        lemma_entry_members_bounds(s, i0 + 1, None, None);
    }
}

/// Reads the entries of a non-empty `data` array, one object after another,
/// until the closing bracket.
pub open spec fn spec_entries_rest(
    s: Seq<char>,
    i: int,
    acc: Seq<(Seq<char>, Seq<char>)>,
) -> Option<(Seq<(Seq<char>, Seq<char>)>, int)>
    decreases s.len() - i
        when 0 <= i <= s.len()
{
    match spec_parse_entry(s, i) {
        None => None,
        Some((e, i1)) => {
            let i2 = spec_skip_ws(s, i1);
            if i2 < s.len() && s[i2] == ',' {
                proof {
                    lemma_parse_entry_bounds(s, i);
                    lemma_skip_ws_bounds(s, i1);
                }
                spec_entries_rest(s, i2 + 1, acc.push(e))
            } else if i2 < s.len() && s[i2] == ']' {
                Some((acc.push(e), i2 + 1))
            } else {
                None
            }
        },
    }
}

pub proof fn lemma_entries_rest_bounds(s: Seq<char>, i: int, acc: Seq<(Seq<char>, Seq<char>)>)
    requires
        0 <= i <= s.len(),
    ensures
        spec_entries_rest(s, i, acc) matches Some(p) ==> i < p.1 <= s.len(),
    decreases s.len() - i,
{
    match spec_parse_entry(s, i) {
        None => {},
        Some((e, i1)) => {
            lemma_parse_entry_bounds(s, i);
            let i2 = spec_skip_ws(s, i1);
            lemma_skip_ws_bounds(s, i1);
            if i2 < s.len() && s[i2] == ',' {
                lemma_entries_rest_bounds(s, i2 + 1, acc.push(e));
            }
        },
    }
}

/// Parses the `data` array: a possibly empty list of entry objects.
pub open spec fn spec_parse_array(s: Seq<char>, i: int) -> Option<
    (Seq<(Seq<char>, Seq<char>)>, int),
> {
    if 0 <= i && i < s.len() && s[i] == '[' {
        let i1 = spec_skip_ws(s, i + 1);
        if i1 < s.len() && s[i1] == ']' {
            Some((Seq::empty(), i1 + 1))
        } else {
            spec_entries_rest(s, i + 1, Seq::empty())
        }
    } else {
        None
    }
}

pub proof fn lemma_parse_array_bounds(s: Seq<char>, i: int)
    requires
        0 <= i <= s.len(),
    ensures
        spec_parse_array(s, i) matches Some(p) ==> i < p.1 <= s.len(),
{
    if 0 <= i && i < s.len() && s[i] == '[' {
        lemma_skip_ws_bounds(s, i + 1);
        lemma_entries_rest_bounds(s, i + 1, Seq::empty());
    }
}

/// Reads the members of the top-level snapshot object for the lightweight
/// pre-read: it stops, successfully, as soon as both `version` and
/// `timestamp` are known, and does not look at the rest of the text.
pub open spec fn spec_header_members(
    s: Seq<char>,
    i: int,
    ver: Option<u64>,
    ts: Option<u64>,
) -> Option<(u64, u64)>
    decreases s.len() - i
        when 0 <= i <= s.len()
{
    let i0 = spec_skip_ws(s, i);
    match spec_parse_string(s, i0) {
        None => None,
        Some((key, i1)) => {
            let i2 = spec_skip_ws(s, i1);
            if i2 < s.len() && s[i2] == ':' {
                let i3 = spec_skip_ws(s, i2 + 1);
                let stepped: Option<(Option<u64>, Option<u64>, int)> = if key == "version"@ {
                    match spec_parse_number(s, i3) {
                        None => None,
                        Some((v, i4)) => Some((Some(v), ts, i4)),
                    }
                } else if key == "timestamp"@ {
                    match spec_parse_number(s, i3) {
                        None => None,
                        Some((t, i4)) => Some((ver, Some(t), i4)),
                    }
                } else {
                    match spec_skip_value(s, i3) {
                        None => None,
                        Some(i4) => Some((ver, ts, i4)),
                    }
                };
                match stepped {
                    None => None,
                    Some((ver2, ts2, i4)) => match (ver2, ts2) {
                        (Some(v), Some(t)) => Some((v, t)),
                        _ => {
                            let i5 = spec_skip_ws(s, i4);
                            if i5 < s.len() && s[i5] == ',' {
                                proof {
                                    lemma_skip_ws_bounds(s, i);
                                    lemma_parse_string_bounds(s, i0);
                                    lemma_skip_ws_bounds(s, i1);
                                    lemma_skip_ws_bounds(s, i2 + 1);
                                    lemma_parse_number_bounds(s, i3);
                                    lemma_skip_value_bounds(s, i3);
                                    lemma_skip_ws_bounds(s, i4);
                                }
                                spec_header_members(s, i5 + 1, ver2, ts2)
                            } else {
                                None
                            }
                        },
                    },
                }
            } else {
                None
            }
        },
    }
}

/// Reads the members of the top-level snapshot object in full: `version`,
/// `timestamp` and the `data` array are collected, unknown members are
/// skipped, and the object must close with all three known.
pub open spec fn spec_full_members(
    s: Seq<char>,
    i: int,
    ver: Option<u64>,
    ts: Option<u64>,
    data: Option<Seq<(Seq<char>, Seq<char>)>>,
) -> Option<(SnapshotView, int)>
    decreases s.len() - i
        when 0 <= i <= s.len()
{
    let i0 = spec_skip_ws(s, i);
    match spec_parse_string(s, i0) {
        None => None,
        Some((key, i1)) => {
            let i2 = spec_skip_ws(s, i1);
            if i2 < s.len() && s[i2] == ':' {
                let i3 = spec_skip_ws(s, i2 + 1);
                let stepped: Option<(Option<u64>, Option<u64>, Option<Seq<(Seq<char>, Seq<char>)>>, int)> =
                    if key == "version"@ {
                    match spec_parse_number(s, i3) {
                        None => None,
                        Some((v, i4)) => Some((Some(v), ts, data, i4)),
                    }
                } else if key == "timestamp"@ {
                    match spec_parse_number(s, i3) {
                        None => None,
                        Some((t, i4)) => Some((ver, Some(t), data, i4)),
                    }
                } else if key == "data"@ {
                    match spec_parse_array(s, i3) {
                        None => None,
                        Some((es, i4)) => Some((ver, ts, Some(es), i4)),
                    }
                } else {
                    match spec_skip_value(s, i3) {
                        None => None,
                        Some(i4) => Some((ver, ts, data, i4)),
                    }
                };
                match stepped {
                    None => None,
                    Some((ver2, ts2, data2, i4)) => {
                        let i5 = spec_skip_ws(s, i4);
                        if i5 < s.len() && s[i5] == ',' {
                            proof {
                                lemma_skip_ws_bounds(s, i);
                                lemma_parse_string_bounds(s, i0);
                                lemma_skip_ws_bounds(s, i1);
                                lemma_skip_ws_bounds(s, i2 + 1);
                                lemma_parse_number_bounds(s, i3);
                                lemma_parse_array_bounds(s, i3);
                                lemma_skip_value_bounds(s, i3);
                                lemma_skip_ws_bounds(s, i4);
                            }
                            spec_full_members(s, i5 + 1, ver2, ts2, data2)
                        } else if i5 < s.len() && s[i5] == '}' {
                            match (ver2, ts2, data2) {
                                (Some(v), Some(t), Some(es)) => Some(
                                    (SnapshotView { version: v, timestamp: t, entries: es }, i5 + 1),
                                ),
                                _ => None,
                            }
                        } else {
                            None
                        }
                    },
                }
            } else {
                None
            }
        },
    }
}

/// The lightweight pre-read of a snapshot text: its `version` and
/// `timestamp` members. The rest of the text, the `data` member included,
/// is not examined.
pub open spec fn spec_parse_header(s: Seq<char>) -> Option<(u64, u64)> {
    let i0 = spec_skip_ws(s, 0);
    if i0 < s.len() && s[i0] == '{' {
        spec_header_members(s, i0 + 1, None, None)
    } else {
        None
    }
}

/// The full parse of a snapshot text, requiring nothing but whitespace
/// after the closing brace.
pub open spec fn spec_parse_snapshot(s: Seq<char>) -> Option<SnapshotView> {
    let i0 = spec_skip_ws(s, 0);
    if i0 < s.len() && s[i0] == '{' {
        match spec_full_members(s, i0 + 1, None, None, None) {
            None => None,
            Some((sv, j)) => {
                if 0 <= j <= s.len() && spec_skip_ws(s, j) == s.len() {
                    Some(sv)
                } else {
                    None
                }
            },
        }
    } else {
        None
    }
}

// ------------------------------------------------------------------
// The executable reader
// ------------------------------------------------------------------

/// The mathematical content of an optional character vector.
pub open spec fn opt_chars_view(o: Option<Vec<char>>) -> Option<Seq<char>> {
    match o {
        Some(v) => Some(v@),
        None => None,
    }
}

/// The mathematical content of a vector of entry pairs.
pub open spec fn entries_view(es: Seq<(Vec<char>, Vec<char>)>) -> Seq<(Seq<char>, Seq<char>)> {
    es.map_values(|q: (Vec<char>, Vec<char>)| (q.0@, q.1@))
}

/// Parses one `data` entry object.
pub fn parse_entry(s: &Vec<char>, i: usize) -> (r: Option<((Vec<char>, Vec<char>), usize)>)
    requires
        i <= s@.len(),
    ensures
        r matches Some(p) ==> spec_parse_entry(s@, i as int) == Some(
            (((p.0).0@, (p.0).1@), p.1 as int),
        ) && i < p.1 <= s@.len(),
        r is None ==> spec_parse_entry(s@, i as int) is None,
{
    let i0 = skip_ws(s, i);
    if i0 >= s.len() || s[i0] != '{' {
        return None;
    }
    let mut pos = i0 + 1;
    let mut id: Option<Vec<char>> = None;
    let mut ls: Option<Vec<char>> = None;
    loop
        invariant
            i < pos <= s@.len(),
            spec_parse_entry(s@, i as int) == spec_entry_members(
                s@,
                pos as int,
                opt_chars_view(id),
                opt_chars_view(ls),
            ),
        decreases s@.len() - pos,
    {
        let k0 = skip_ws(s, pos);
        let (key, k1) = match parse_string_at(s, k0) {
            Some(p) => p,
            None => {
                return None;
            },
        };
        let k2 = skip_ws(s, k1);
        if k2 >= s.len() || s[k2] != ':' {
            return None;
        }
        let k3 = skip_ws(s, k2 + 1);
        let k4: usize = if crate::strutil::chars_eq_str(&key, "id") {
            match parse_string_at(s, k3) {
                Some((v, p4)) => {
                    id = Some(v);
                    p4
                },
                None => {
                    return None;
                },
            }
        } else if crate::strutil::chars_eq_str(&key, "last_status") {
            match parse_string_at(s, k3) {
                Some((v, p4)) => {
                    ls = Some(v);
                    p4
                },
                None => {
                    return None;
                },
            }
        } else {
            match skip_value(s, k3) {
                Some(p4) => p4,
                None => {
                    return None;
                },
            }
        };
        let k5 = skip_ws(s, k4);
        if k5 < s.len() && s[k5] == ',' {
            pos = k5 + 1;
        } else if k5 < s.len() && s[k5] == '}' {
            match (id, ls) {
                (Some(a), Some(b)) => {
                    return Some(((a, b), k5 + 1));
                },
                _ => {
                    return None;
                },
            }
        } else {
            return None;
        }
    }
}

/// Parses the `data` array.
pub fn parse_array(s: &Vec<char>, i: usize) -> (r: Option<(Vec<(Vec<char>, Vec<char>)>, usize)>)
    requires
        i <= s@.len(),
    ensures
        r matches Some(p) ==> spec_parse_array(s@, i as int) == Some(
            (entries_view(p.0@), p.1 as int),
        ) && i < p.1 <= s@.len(),
        r is None ==> spec_parse_array(s@, i as int) is None,
{
    if i >= s.len() || s[i] != '[' {
        return None;
    }
    let i1 = skip_ws(s, i + 1);
    if i1 < s.len() && s[i1] == ']' {
        let out: Vec<(Vec<char>, Vec<char>)> = Vec::new();
        proof {
            assert(entries_view(out@) =~= Seq::<(Seq<char>, Seq<char>)>::empty());
        }
        return Some((out, i1 + 1));
    }
    let mut acc: Vec<(Vec<char>, Vec<char>)> = Vec::new();
    let mut pos = i + 1;
    proof {
        assert(entries_view(acc@) =~= Seq::<(Seq<char>, Seq<char>)>::empty());
    }
    loop
        invariant
            i < pos <= s@.len(),
            spec_parse_array(s@, i as int) == spec_entries_rest(s@, pos as int, entries_view(acc@)),
        decreases s@.len() - pos,
    {
        match parse_entry(s, pos) {
            None => {
                return None;
            },
            Some((e, p1)) => {
                let ghost pre = acc@;
                let p2 = skip_ws(s, p1);
                proof {
                    assert(entries_view(pre.push(e)) =~= entries_view(pre).push((e.0@, e.1@)));
                }
                acc.push(e);
                if p2 < s.len() && s[p2] == ',' {
                    pos = p2 + 1;
                } else if p2 < s.len() && s[p2] == ']' {
                    return Some((acc, p2 + 1));
                } else {
                    return None;
                }
            },
        }
    }
}

/// The lightweight pre-read: the `version` and `timestamp` members of the
/// top-level object, found without examining the rest of the text.
pub fn parse_header(s: &Vec<char>) -> (r: Option<(u64, u64)>)
    ensures
        r == spec_parse_header(s@),
{
    let i0 = skip_ws(s, 0);
    if i0 >= s.len() || s[i0] != '{' {
        return None;
    }
    let mut pos = i0 + 1;
    let mut ver: Option<u64> = None;
    let mut ts: Option<u64> = None;
    loop
        invariant
            pos <= s@.len(),
            spec_parse_header(s@) == spec_header_members(s@, pos as int, ver, ts),
        decreases s@.len() - pos,
    {
        let k0 = skip_ws(s, pos);
        let (key, k1) = match parse_string_at(s, k0) {
            Some(p) => p,
            None => {
                return None;
            },
        };
        let k2 = skip_ws(s, k1);
        if k2 >= s.len() || s[k2] != ':' {
            return None;
        }
        let k3 = skip_ws(s, k2 + 1);
        let k4: usize = if crate::strutil::chars_eq_str(&key, "version") {
            match parse_number(s, k3) {
                Some((v, p4)) => {
                    ver = Some(v);
                    p4
                },
                None => {
                    return None;
                },
            }
        } else if crate::strutil::chars_eq_str(&key, "timestamp") {
            match parse_number(s, k3) {
                Some((t, p4)) => {
                    ts = Some(t);
                    p4
                },
                None => {
                    return None;
                },
            }
        } else {
            match skip_value(s, k3) {
                Some(p4) => p4,
                None => {
                    return None;
                },
            }
        };
        match (ver, ts) {
            (Some(v), Some(t)) => {
                return Some((v, t));
            },
            _ => {},
        }
        let k5 = skip_ws(s, k4);
        if k5 < s.len() && s[k5] == ',' {
            pos = k5 + 1;
        } else {
            return None;
        }
    }
}

/// The full parse of a snapshot text.
pub fn parse_snapshot(s: &Vec<char>) -> (r: Option<(u64, u64, Vec<(Vec<char>, Vec<char>)>)>)
    ensures
        r matches Some(p) ==> spec_parse_snapshot(s@) == Some(
            SnapshotView { version: p.0, timestamp: p.1, entries: entries_view(p.2@) },
        ),
        r is None ==> spec_parse_snapshot(s@) is None,
{
    let i0 = skip_ws(s, 0);
    if i0 >= s.len() || s[i0] != '{' {
        return None;
    }
    let mut pos = i0 + 1;
    let mut ver: Option<u64> = None;
    let mut ts: Option<u64> = None;
    let mut data: Option<Vec<(Vec<char>, Vec<char>)>> = None;
    loop
        invariant
            pos <= s@.len(),
            spec_parse_snapshot(s@) == ({
                match spec_full_members(s@, pos as int, ver, ts, spec_data_view(data)) {
                    None => None::<SnapshotView>,
                    Some((sv, j)) => {
                        if 0 <= j <= s@.len() && spec_skip_ws(s@, j) == s@.len() {
                            Some(sv)
                        } else {
                            None::<SnapshotView>
                        }
                    },
                }
            }),
        decreases s@.len() - pos,
    {
        let k0 = skip_ws(s, pos);
        let (key, k1) = match parse_string_at(s, k0) {
            Some(p) => p,
            None => {
                return None;
            },
        };
        let k2 = skip_ws(s, k1);
        if k2 >= s.len() || s[k2] != ':' {
            return None;
        }
        let k3 = skip_ws(s, k2 + 1);
        let k4: usize = if crate::strutil::chars_eq_str(&key, "version") {
            match parse_number(s, k3) {
                Some((v, p4)) => {
                    ver = Some(v);
                    p4
                },
                None => {
                    return None;
                },
            }
        } else if crate::strutil::chars_eq_str(&key, "timestamp") {
            match parse_number(s, k3) {
                Some((t, p4)) => {
                    ts = Some(t);
                    p4
                },
                None => {
                    return None;
                },
            }
        } else if crate::strutil::chars_eq_str(&key, "data") {
            match parse_array(s, k3) {
                Some((es, p4)) => {
                    data = Some(es);
                    p4
                },
                None => {
                    return None;
                },
            }
        } else {
            match skip_value(s, k3) {
                Some(p4) => p4,
                None => {
                    return None;
                },
            }
        };
        let k5 = skip_ws(s, k4);
        if k5 < s.len() && s[k5] == ',' {
            pos = k5 + 1;
        } else if k5 < s.len() && s[k5] == '}' {
            match (ver, ts, data) {
                (Some(v), Some(t), Some(es)) => {
                    let e0 = skip_ws(s, k5 + 1);
                    if e0 == s.len() {
                        return Some((v, t, es));
                    } else {
                        return None;
                    }
                },
                _ => {
                    return None;
                },
            }
        } else {
            return None;
        }
    }
}

/// The mathematical content of the optional collected `data` member.
pub open spec fn spec_data_view(o: Option<Vec<(Vec<char>, Vec<char>)>>) -> Option<
    Seq<(Seq<char>, Seq<char>)>,
> {
    match o {
        Some(v) => Some(entries_view(v@)),
        None => None,
    }
}

// ------------------------------------------------------------------
// The writer
// ------------------------------------------------------------------

/// Decimal spelling of a number, most significant digit first.
pub open spec fn spec_u64_digits(n: u64) -> Seq<char>
    decreases n,
{
    if n < 10 {
        seq![digit_char(n)]
    } else {
        spec_u64_digits(n / 10).push(digit_char(n % 10))
    }
}

/// Canonical rendering of one `data` entry.
pub open spec fn spec_render_entry(id: Seq<char>, ls: Seq<char>) -> Seq<char> {
    "{\"id\":\""@ + spec_escape(id) + "\",\"last_status\":\""@ + spec_escape(ls) + "\"}"@
}

/// Canonical rendering of the entries between the array brackets.
pub open spec fn spec_render_entries_inner(es: Seq<(Seq<char>, Seq<char>)>) -> Seq<char>
    decreases es.len(),
{
    if es.len() == 0 {
        Seq::empty()
    } else if es.len() == 1 {
        spec_render_entry(es[0].0, es[0].1)
    } else {
        spec_render_entry(es[0].0, es[0].1) + ","@ + spec_render_entries_inner(es.drop_first())
    }
}

/// Canonical rendering of the `data` array.
pub open spec fn spec_render_entries(es: Seq<(Seq<char>, Seq<char>)>) -> Seq<char> {
    "["@ + spec_render_entries_inner(es) + "]"@
}

/// Canonical rendering of a whole snapshot.
pub open spec fn spec_render_snapshot(
    version: u64,
    timestamp: u64,
    es: Seq<(Seq<char>, Seq<char>)>,
) -> Seq<char> {
    "{\"version\":"@ + spec_u64_digits(version) + ",\"timestamp\":"@ + spec_u64_digits(timestamp)
        + ",\"data\":"@ + spec_render_entries(es) + "}"@
}

/// Appends the characters of a string slice.
pub fn push_str_chars(out: &mut Vec<char>, s: &str)
    ensures
        final(out)@ == old(out)@ + s@,
{
    let n = s.unicode_len();
    let mut i: usize = 0;
    while i < n
        invariant
            n == s@.len(),
            i <= n,
            out@ == old(out)@ + s@.take(i as int),
        decreases n - i,
    {
        out.push(s.get_char(i));
        proof {
            assert(s@.take(i as int + 1) =~= s@.take(i as int).push(s@[i as int]));
            assert(out@ =~= old(out)@ + s@.take(i as int + 1));
        }
        i += 1;
    }
    proof {
        assert(s@.take(n as int) =~= s@);
    }
}

/// Appends the decimal spelling of a number.
pub fn push_u64_digits(out: &mut Vec<char>, n: u64)
    ensures
        final(out)@ == old(out)@ + spec_u64_digits(n),
    decreases n,
{
    if n >= 10 {
        push_u64_digits(out, n / 10);
        let d = n % 10;
        out.push(((d + 48) as u8) as char);
        proof {
            assert(out@ =~= old(out)@ + spec_u64_digits(n));
        }
    } else {
        out.push(((n + 48) as u8) as char);
        proof {
            assert(out@ =~= old(out)@ + spec_u64_digits(n));
        }
    }
}

pub proof fn lemma_escape_push(a: Seq<char>, c: char)
    ensures
        spec_escape(a.push(c)) == spec_escape(a) + spec_escape_char(c),
    decreases a.len(),
{
    if a.len() == 0 {
        assert(a.push(c).drop_first() =~= Seq::<char>::empty());
        assert(a.push(c)[0] == c);
        assert(spec_escape(Seq::<char>::empty()) =~= Seq::<char>::empty());
        assert(spec_escape(a.push(c)) =~= spec_escape(a) + spec_escape_char(c));
    } else {
        lemma_escape_push(a.drop_first(), c);
        assert(a.push(c).drop_first() =~= a.drop_first().push(c));
        assert(spec_escape(a.push(c)) =~= spec_escape(a) + spec_escape_char(c));
    }
}

/// Appends a string's characters in their escaped spelling.
pub fn push_escaped(out: &mut Vec<char>, s: &str)
    ensures
        final(out)@ == old(out)@ + spec_escape(s@),
{
    let n = s.unicode_len();
    let mut i: usize = 0;
    while i < n
        invariant
            n == s@.len(),
            i <= n,
            out@ == old(out)@ + spec_escape(s@.take(i as int)),
        decreases n - i,
    {
        let c = s.get_char(i);
        if c == '"' || c == '\\' {
            out.push('\\');
            out.push(c);
        } else {
            out.push(c);
        }
        proof {
            lemma_escape_push(s@.take(i as int), s@[i as int]);
            assert(s@.take(i as int + 1) =~= s@.take(i as int).push(s@[i as int]));
            assert(out@ =~= old(out)@ + spec_escape(s@.take(i as int + 1)));
        }
        i += 1;
    }
    proof {
        assert(s@.take(n as int) =~= s@);
    }
}

/// The mathematical content of a vector of entry string pairs.
pub open spec fn string_entries_view(es: Seq<(String, String)>) -> Seq<(Seq<char>, Seq<char>)> {
    es.map_values(|q: (String, String)| (q.0@, q.1@))
}

pub proof fn lemma_render_inner_snoc(es: Seq<(Seq<char>, Seq<char>)>, e: (Seq<char>, Seq<char>))
    ensures
        spec_render_entries_inner(es.push(e)) == if es.len() == 0 {
            spec_render_entry(e.0, e.1)
        } else {
            spec_render_entries_inner(es) + ","@ + spec_render_entry(e.0, e.1)
        },
    decreases es.len(),
{
    if es.len() == 0 {
        assert(es.push(e).len() == 1);
        assert(es.push(e)[0] == e);
    } else {
        lemma_render_inner_snoc(es.drop_first(), e);
        assert(es.push(e).drop_first() =~= es.drop_first().push(e));
        assert(es.push(e)[0] == es[0]);
        assert(spec_render_entries_inner(es.push(e)) =~= spec_render_entries_inner(es) + ","@
            + spec_render_entry(e.0, e.1));
    }
}

/// Writes the canonical rendering of a snapshot.
pub fn render_snapshot(version: u64, timestamp: u64, entries: &Vec<(String, String)>) -> (r: Vec<
    char,
>)
    ensures
        r@ == spec_render_snapshot(version, timestamp, string_entries_view(entries@)),
{
    let mut out: Vec<char> = Vec::new();
    push_str_chars(&mut out, "{\"version\":");
    push_u64_digits(&mut out, version);
    push_str_chars(&mut out, ",\"timestamp\":");
    push_u64_digits(&mut out, timestamp);
    push_str_chars(&mut out, ",\"data\":");
    push_str_chars(&mut out, "[");
    let n = entries.len();
    let mut k: usize = 0;
    let ghost evs = string_entries_view(entries@);
    let ghost prefix = out@;
    proof {
        assert(spec_render_entries_inner(evs.take(0)) =~= Seq::<char>::empty());
        assert(out@ =~= prefix + spec_render_entries_inner(evs.take(0)));
    }
    while k < n
        invariant
            n == entries@.len(),
            k <= n,
            evs == string_entries_view(entries@),
            evs.len() == n,
            out@ == prefix + spec_render_entries_inner(evs.take(k as int)),
        decreases n - k,
    {
        if k > 0 {
            push_str_chars(&mut out, ",");
        }
        push_str_chars(&mut out, "{\"id\":\"");
        push_escaped(&mut out, entries[k].0.as_str());
        push_str_chars(&mut out, "\",\"last_status\":\"");
        push_escaped(&mut out, entries[k].1.as_str());
        push_str_chars(&mut out, "\"}");
        proof {
            lemma_render_inner_snoc(evs.take(k as int), evs[k as int]);
            assert(evs.take(k as int + 1) =~= evs.take(k as int).push(evs[k as int]));
            assert(evs[k as int].0 == entries@[k as int].0@);
            assert(evs[k as int].1 == entries@[k as int].1@);
            assert(out@ =~= prefix + spec_render_entries_inner(evs.take(k as int + 1)));
        }
        k += 1;
    }
    proof {
        assert(evs.take(n as int) =~= evs);
    }
    push_str_chars(&mut out, "]");
    push_str_chars(&mut out, "}");
    proof {
        assert(out@ =~= spec_render_snapshot(version, timestamp, string_entries_view(entries@)));
    }
    out
}

// ------------------------------------------------------------------
// Round trip, part one: numbers and strings re-read exactly
// ------------------------------------------------------------------

/// Every character of the sequence is a decimal digit.
pub open spec fn all_digits(ds: Seq<char>) -> bool {
    forall|j: int| 0 <= j < ds.len() ==> is_digit(#[trigger] ds[j])
}

/// Numeric value of a digit sequence, most significant digit first.
pub open spec fn seq_digit_val(ds: Seq<char>) -> int
    decreases ds.len(),
{
    if ds.len() == 0 {
        0
    } else {
        seq_digit_val(ds.drop_last()) * 10 + digit_val(ds.last())
    }
}

pub open spec fn pow10(k: nat) -> int
    decreases k,
{
    if k == 0 {
        1
    } else {
        10 * pow10((k - 1) as nat)
    }
}

proof fn lemma_pow10_pos(k: nat)
    ensures
        pow10(k) >= 1,
    decreases k,
{
    if k > 0 {
        lemma_pow10_pos((k - 1) as nat);
    }
}

proof fn lemma_val_nonneg(ds: Seq<char>)
    ensures
        seq_digit_val(ds) >= 0,
    decreases ds.len(),
{
    if ds.len() > 0 {
        lemma_val_nonneg(ds.drop_last());
    }
}

/// The decimal spelling of `n` is made of digits and spells `n`.
proof fn lemma_u64_digits_facts(n: u64)
    ensures
        spec_u64_digits(n).len() >= 1,
        all_digits(spec_u64_digits(n)),
        seq_digit_val(spec_u64_digits(n)) == n,
    decreases n,
{
    if n < 10 {
        let ds = spec_u64_digits(n);
        assert(ds =~= seq![digit_char(n)]);
        assert(ds.drop_last() =~= Seq::<char>::empty());
        assert(ds.last() == digit_char(n));
        assert(seq_digit_val(Seq::<char>::empty()) == 0);
        assert(seq_digit_val(ds) == digit_val(digit_char(n)));
        assert(digit_val(digit_char(n)) == n);
        assert(is_digit(digit_char(n)));
    } else {
        lemma_u64_digits_facts(n / 10);
        let prev = spec_u64_digits(n / 10);
        let ds = spec_u64_digits(n);
        assert(ds == prev.push(digit_char(n % 10)));
        assert(ds.drop_last() =~= prev);
        assert(ds.last() == digit_char(n % 10));
        assert(digit_val(digit_char(n % 10)) == n % 10);
        assert(seq_digit_val(ds) == (n / 10) * 10 + n % 10);
        assert((n / 10) * 10 + n % 10 == n);
        assert(is_digit(digit_char(n % 10)));
        assert forall|j: int| 0 <= j < ds.len() implies is_digit(#[trigger] ds[j]) by {
            if j < prev.len() {
                assert(ds[j] == prev[j]);
            } else {
                assert(ds[j] == digit_char(n % 10));
            }
        }
    }
}

/// Front decomposition of the value of a digit sequence.
proof fn lemma_val_front(ds: Seq<char>)
    requires
        ds.len() >= 1,
    ensures
        seq_digit_val(ds) == digit_val(ds[0]) * pow10((ds.len() - 1) as nat) + seq_digit_val(
            ds.drop_first(),
        ),
    decreases ds.len(),
{
    if ds.len() == 1 {
        assert(ds.drop_last() =~= Seq::<char>::empty());
        assert(ds.drop_first() =~= Seq::<char>::empty());
        assert(ds.last() == ds[0]);
        assert(pow10(0) == 1);
    } else {
        lemma_val_front(ds.drop_last());
        assert(ds.drop_last()[0] == ds[0]);
        assert(ds.drop_last().drop_first() =~= ds.drop_first().drop_last());
        assert(ds.drop_first().last() == ds.last());
        let k = (ds.len() - 2) as nat;
        let d0 = digit_val(ds[0]) as int;
        let mid = seq_digit_val(ds.drop_first().drop_last());
        assert(seq_digit_val(ds.drop_last()) == d0 * pow10(k) + mid);
        assert(seq_digit_val(ds) == (d0 * pow10(k) + mid) * 10 + digit_val(ds.last()));
        assert(seq_digit_val(ds.drop_first()) == mid * 10 + digit_val(ds.drop_first().last()));
        assert((d0 * pow10(k) + mid) * 10 == d0 * (10 * pow10(k)) + mid * 10) by (nonlinear_arith);
        assert(pow10((ds.len() - 1) as nat) == 10 * pow10(k));
    }
}

/// The digit parser run over a digit region with a known value: it consumes
/// the whole region and accumulates exactly that value.
proof fn lemma_parse_digits_exact(s: Seq<char>, i: int, k: int, acc: u64)
    requires
        0 <= i <= k <= s.len(),
        forall|j: int| i <= j < k ==> is_digit(#[trigger] s[j]),
        k == s.len() || !is_digit(s[k]),
        acc * pow10((k - i) as nat) + seq_digit_val(s.subrange(i, k)) <= u64::MAX,
    ensures
        spec_parse_digits(s, i, acc) == Some(
            ((acc * pow10((k - i) as nat) + seq_digit_val(s.subrange(i, k))) as u64, k),
        ),
    decreases k - i,
{
    let sub = s.subrange(i, k);
    if i == k {
        assert(sub =~= Seq::<char>::empty());
        assert(pow10(0) == 1);
    } else {
        let m = (k - i - 1) as nat;
        let d0 = digit_val(s[i]);
        assert(sub[0] == s[i]);
        assert(sub.len() >= 1);
        lemma_val_front(sub);
        assert(sub.drop_first() =~= s.subrange(i + 1, k));
        let rest = seq_digit_val(s.subrange(i + 1, k));
        assert(seq_digit_val(sub) == d0 * pow10(m) + rest);
        lemma_pow10_pos(m);
        lemma_val_nonneg(s.subrange(i + 1, k));
        let total = acc * pow10((k - i) as nat) + seq_digit_val(sub);
        let acc1 = (acc * 10 + d0) as int;
        assert(pow10((k - i) as nat) == 10 * pow10(m));
        assert(acc * (10 * pow10(m)) + (d0 * pow10(m) + rest) == (acc * 10 + d0) * pow10(m)
            + rest) by (nonlinear_arith);
        assert(total == acc1 * pow10(m) + rest);
        assert(acc1 <= acc1 * pow10(m)) by (nonlinear_arith)
            requires
                acc1 >= 0,
                pow10(m) >= 1,
        ;
        assert(acc1 <= total);
        // the overflow test in the parser passes
        assert(u64::MAX - d0 == 10 * ((u64::MAX - d0) / 10) + (u64::MAX - d0) % 10);
        assert(0 <= (u64::MAX - d0) % 10 < 10);
        assert(acc <= (u64::MAX - d0) / 10);
        lemma_parse_digits_exact(s, i + 1, k, (acc * 10 + d0) as u64);
    }
}

/// A number parser run at the decimal spelling of `n`, delimited on the
/// right, reads back exactly `n`.
proof fn lemma_parse_number_of_digits(s: Seq<char>, i: int, n: u64)
    requires
        0 <= i,
        i + spec_u64_digits(n).len() <= s.len(),
        s.subrange(i, i + spec_u64_digits(n).len()) == spec_u64_digits(n),
        i + spec_u64_digits(n).len() == s.len() || !is_digit(s[i + spec_u64_digits(n).len()]),
    ensures
        spec_parse_number(s, i) == Some((n, i + spec_u64_digits(n).len())),
{
    let ds = spec_u64_digits(n);
    let k = i + ds.len();
    lemma_u64_digits_facts(n);
    assert forall|j: int| i <= j < k implies is_digit(#[trigger] s[j]) by {
        assert(s[j] == s.subrange(i, k)[j - i]);
        assert(is_digit(ds[j - i]));
    }
    assert(s[i] == ds[0]);
    lemma_pow10_pos((k - i) as nat);
    assert(0 * pow10((k - i) as nat) == 0) by (nonlinear_arith);
    lemma_parse_digits_exact(s, i, k, 0u64);
    assert(seq_digit_val(s.subrange(i, k)) == n);
}

/// No character of the sequence needs escaping.
pub open spec fn plain_chars(x: Seq<char>) -> bool {
    forall|j: int| 0 <= j < x.len() ==> #[trigger] x[j] != '"' && x[j] != '\\'
}

proof fn lemma_escape_plain(x: Seq<char>)
    requires
        plain_chars(x),
    ensures
        spec_escape(x) == x,
    decreases x.len(),
{
    if x.len() == 0 {
        assert(spec_escape(x) =~= x);
    } else {
        assert(x[0] != '"' && x[0] != '\\');
        assert(plain_chars(x.drop_first())) by {
            assert forall|j: int| 0 <= j < x.drop_first().len() implies #[trigger] x.drop_first()[j]
                != '"' && x.drop_first()[j] != '\\' by {
                assert(x.drop_first()[j] == x[j + 1]);
            }
        }
        lemma_escape_plain(x.drop_first());
        assert(spec_escape(x) =~= x);
    }
}

/// The string-body parser run over the escaped spelling of `x`, followed by
/// the closing quote, accumulates exactly `x`.
proof fn lemma_parse_body_escaped(s: Seq<char>, i: int, x: Seq<char>, acc: Seq<char>)
    requires
        0 <= i,
        i + spec_escape(x).len() + 1 <= s.len(),
        s.subrange(i, i + spec_escape(x).len()) == spec_escape(x),
        s[i + spec_escape(x).len()] == '"',
    ensures
        spec_parse_string_body(s, i, acc) == Some((acc + x, i + spec_escape(x).len() + 1)),
    decreases x.len(),
{
    if x.len() == 0 {
        assert(spec_escape(x) =~= Seq::<char>::empty());
        assert(s[i] == '"');
        assert(acc + x =~= acc);
    } else {
        let c = x[0];
        let rest = x.drop_first();
        let e = spec_escape(x);
        assert(e == spec_escape_char(c) + spec_escape(rest));
        assert forall|j: int| 0 <= j < e.len() implies s[i + j] == e[j] by {
            assert(s.subrange(i, i + e.len())[j] == s[i + j]);
        }
        if c == '"' || c == '\\' {
            assert(spec_escape_char(c) =~= seq!['\\', c]);
            assert(e[0] == '\\');
            assert(e[1] == c);
            assert(s[i] == '\\');
            assert(s[i + 1] == c);
            assert(s.subrange(i + 2, i + 2 + spec_escape(rest).len()) =~= spec_escape(rest)) by {
                assert forall|j: int| 0 <= j < spec_escape(rest).len() implies s.subrange(
                    i + 2,
                    i + 2 + spec_escape(rest).len(),
                )[j] == spec_escape(rest)[j] by {
                    assert(s[i + 2 + j] == e[j + 2]);
                    assert(e[j + 2] == spec_escape(rest)[j]);
                }
            }
            lemma_parse_body_escaped(s, i + 2, rest, acc.push(c));
            assert(acc.push(c) + rest =~= acc + x);
            assert(spec_parse_string_body(s, i, acc) == Some((acc + x, i + e.len() + 1)));
        } else {
            assert(spec_escape_char(c) =~= seq![c]);
            assert(e[0] == c);
            assert(s[i] == c);
            assert(s[i] != '"' && s[i] != '\\');
            assert(s.subrange(i + 1, i + 1 + spec_escape(rest).len()) =~= spec_escape(rest)) by {
                assert forall|j: int| 0 <= j < spec_escape(rest).len() implies s.subrange(
                    i + 1,
                    i + 1 + spec_escape(rest).len(),
                )[j] == spec_escape(rest)[j] by {
                    assert(s[i + 1 + j] == e[j + 1]);
                    assert(e[j + 1] == spec_escape(rest)[j]);
                }
            }
            lemma_parse_body_escaped(s, i + 1, rest, acc.push(c));
            assert(acc.push(c) + rest =~= acc + x);
            assert(spec_parse_string_body(s, i, acc) == Some((acc + x, i + e.len() + 1)));
        }
    }
}

/// The string parser run at the quoted, escaped spelling of `x` reads back
/// exactly `x`.
proof fn lemma_parse_string_exact(s: Seq<char>, i: int, x: Seq<char>)
    requires
        0 <= i,
        i + spec_escape(x).len() + 2 <= s.len(),
        s[i] == '"',
        s.subrange(i + 1, i + 1 + spec_escape(x).len()) == spec_escape(x),
        s[i + 1 + spec_escape(x).len()] == '"',
    ensures
        spec_parse_string(s, i) == Some((x, i + spec_escape(x).len() + 2)),
{
    lemma_parse_body_escaped(s, i + 1, x, Seq::empty());
    assert(Seq::<char>::empty() + x =~= x);
}

/// The string parser run at a quoted region holding `x` verbatim, where `x`
/// needs no escaping, reads back exactly `x`.
proof fn lemma_parse_plain_string(s: Seq<char>, i: int, x: Seq<char>)
    requires
        0 <= i,
        i + x.len() + 2 <= s.len(),
        plain_chars(x),
        s[i] == '"',
        s.subrange(i + 1, i + 1 + x.len()) == x,
        s[i + 1 + x.len()] == '"',
    ensures
        spec_parse_string(s, i) == Some((x, i + x.len() + 2)),
{
    lemma_escape_plain(x);
    lemma_parse_string_exact(s, i, x);
}

// ------------------------------------------------------------------
// Round trip, part two: the canonical rendering re-read exactly
// ------------------------------------------------------------------

proof fn lemma_lit_chunks()
    ensures
        "{\"version\":"@ =~= seq!['{', '"', 'v', 'e', 'r', 's', 'i', 'o', 'n', '"', ':'],
        ",\"timestamp\":"@ =~= seq![',', '"', 't', 'i', 'm', 'e', 's', 't', 'a', 'm', 'p', '"', ':'],
        ",\"data\":"@ =~= seq![',', '"', 'd', 'a', 't', 'a', '"', ':'],
        "{\"id\":\""@ =~= seq!['{', '"', 'i', 'd', '"', ':', '"'],
        "\",\"last_status\":\""@ =~= seq![
            '"', ',', '"', 'l', 'a', 's', 't', '_', 's', 't', 'a', 't', 'u', 's', '"', ':', '"',
        ],
        "\"}"@ =~= seq!['"', '}'],
        "}"@ =~= seq!['}'],
        "["@ =~= seq!['['],
        "]"@ =~= seq![']'],
        ","@ =~= seq![','],
        "version"@ =~= seq!['v', 'e', 'r', 's', 'i', 'o', 'n'],
        "timestamp"@ =~= seq!['t', 'i', 'm', 'e', 's', 't', 'a', 'm', 'p'],
        "data"@ =~= seq!['d', 'a', 't', 'a'],
        "id"@ =~= seq!['i', 'd'],
        "last_status"@ =~= seq!['l', 'a', 's', 't', '_', 's', 't', 'a', 't', 'u', 's'],
{
    reveal_strlit("{\"version\":");
    reveal_strlit(",\"timestamp\":");
    reveal_strlit(",\"data\":");
    reveal_strlit("{\"id\":\"");
    reveal_strlit("\",\"last_status\":\"");
    reveal_strlit("\"}");
    reveal_strlit("}");
    reveal_strlit("[");
    reveal_strlit("]");
    reveal_strlit(",");
    reveal_strlit("version");
    reveal_strlit("timestamp");
    reveal_strlit("data");
    reveal_strlit("id");
    reveal_strlit("last_status");
}

/// The entry parser run at the canonical rendering of one entry reads back
/// exactly its id and status.
#[verifier::rlimit(50)]
proof fn lemma_parse_entry_of_render(s: Seq<char>, i: int, id: Seq<char>, ls: Seq<char>)
    requires
        0 <= i,
        i + spec_render_entry(id, ls).len() <= s.len(),
        s.subrange(i, i + spec_render_entry(id, ls).len()) == spec_render_entry(id, ls),
    ensures
        spec_parse_entry(s, i) == Some(((id, ls), i + spec_render_entry(id, ls).len())),
{
    lemma_lit_chunks();
    let e = spec_render_entry(id, ls);
    let m = spec_escape(id).len() as int;
    let p = spec_escape(ls).len() as int;
    assert(e.len() == 26 + m + p);
    assert forall|k: int| 0 <= k < e.len() implies s[i + k] == e[k] by {
        assert(s.subrange(i, i + e.len())[k] == s[i + k]);
    }
    // the fixed characters of the rendering
    assert(e[0] == '{');
    assert(e[1] == '"');
    assert(e[2] == 'i');
    assert(e[3] == 'd');
    assert(e[4] == '"');
    assert(e[5] == ':');
    assert(e[6] == '"');
    assert forall|j: int| 0 <= j < m implies e[7 + j] == spec_escape(id)[j] by {}
    assert(e[7 + m] == '"');
    assert(e[8 + m] == ',');
    assert(e[9 + m] == '"');
    assert(e[10 + m] == 'l');
    assert(e[11 + m] == 'a');
    assert(e[12 + m] == 's');
    assert(e[13 + m] == 't');
    assert(e[14 + m] == '_');
    assert(e[15 + m] == 's');
    assert(e[16 + m] == 't');
    assert(e[17 + m] == 'a');
    assert(e[18 + m] == 't');
    assert(e[19 + m] == 'u');
    assert(e[20 + m] == 's');
    assert(e[21 + m] == '"');
    assert(e[22 + m] == ':');
    assert(e[23 + m] == '"');
    assert forall|j: int| 0 <= j < p implies e[24 + m + j] == spec_escape(ls)[j] by {}
    assert(e[24 + m + p] == '"');
    assert(e[25 + m + p] == '}');
    // the first member: "id"
    assert(plain_chars("id"@));
    assert(s.subrange(i + 2, i + 4) =~= "id"@) by {
        assert forall|j: int| 0 <= j < 2 implies s.subrange(i + 2, i + 4)[j] == "id"@[j] by {
            assert(s[i + 2 + j] == e[2 + j]);
        }
    }
    lemma_parse_plain_string(s, i + 1, "id"@);
    assert(spec_parse_string(s, i + 1) == Some(("id"@, i + 5)));
    assert(s.subrange(i + 7, i + 7 + m) =~= spec_escape(id)) by {
        assert forall|j: int| 0 <= j < m implies s.subrange(i + 7, i + 7 + m)[j] == spec_escape(
            id,
        )[j] by {
            assert(s[i + 7 + j] == e[7 + j]);
        }
    }
    lemma_parse_string_exact(s, i + 6, id);
    assert(spec_parse_string(s, i + 6) == Some((id, i + 8 + m)));
    // the second member: "last_status"
    assert(plain_chars("last_status"@));
    assert(s.subrange(i + 10 + m, i + 21 + m) =~= "last_status"@) by {
        assert forall|j: int| 0 <= j < 11 implies s.subrange(i + 10 + m, i + 21 + m)[j]
            == "last_status"@[j] by {
            assert(s[i + 10 + m + j] == e[10 + m + j]);
        }
    }
    lemma_parse_plain_string(s, i + 9 + m, "last_status"@);
    assert(spec_parse_string(s, i + 9 + m) == Some(("last_status"@, i + 22 + m)));
    assert(s.subrange(i + 24 + m, i + 24 + m + p) =~= spec_escape(ls)) by {
        assert forall|j: int| 0 <= j < p implies s.subrange(i + 24 + m, i + 24 + m + p)[j]
            == spec_escape(ls)[j] by {
            assert(s[i + 24 + m + j] == e[24 + m + j]);
        }
    }
    lemma_parse_string_exact(s, i + 23 + m, ls);
    assert(spec_parse_string(s, i + 23 + m) == Some((ls, i + 25 + m + p)));
    // walk the member loop
    assert("last_status"@ != "id"@);
    assert(spec_entry_members(s, i + 9 + m, Some(id), None) == Some(((id, ls), i + 26 + m + p)));
    assert(spec_entry_members(s, i + 1, None, None) == Some(((id, ls), i + 26 + m + p)));
    assert(spec_parse_entry(s, i) == Some(((id, ls), i + 26 + m + p)));
}

/// The entries loop run at the canonical rendering of one or more entries,
/// followed by the closing bracket, reads back exactly those entries.
proof fn lemma_entries_rest_of_render(
    s: Seq<char>,
    i: int,
    es: Seq<(Seq<char>, Seq<char>)>,
    acc: Seq<(Seq<char>, Seq<char>)>,
)
    requires
        es.len() >= 1,
        0 <= i,
        i + spec_render_entries_inner(es).len() + 1 <= s.len(),
        s.subrange(i, i + spec_render_entries_inner(es).len()) == spec_render_entries_inner(es),
        s[i + spec_render_entries_inner(es).len()] == ']',
    ensures
        spec_entries_rest(s, i, acc) == Some(
            (acc + es, i + spec_render_entries_inner(es).len() + 1),
        ),
    decreases es.len(),
{
    let inner = spec_render_entries_inner(es);
    let e0 = spec_render_entry(es[0].0, es[0].1);
    assert forall|k: int| 0 <= k < inner.len() implies s[i + k] == inner[k] by {
        assert(s.subrange(i, i + inner.len())[k] == s[i + k]);
    }
    if es.len() == 1 {
        assert(inner == e0);
        assert(s.subrange(i, i + e0.len()) == e0) by {
            assert(s.subrange(i, i + e0.len()) =~= s.subrange(i, i + inner.len()));
        }
        lemma_parse_entry_of_render(s, i, es[0].0, es[0].1);
        assert(spec_entries_rest(s, i, acc) == Some((acc.push(es[0]), i + e0.len() + 1)));
        assert(acc.push(es[0]) =~= acc + es);
    } else {
        let rest = es.drop_first();
        let rinner = spec_render_entries_inner(rest);
        assert(inner == e0 + ","@ + rinner);
        lemma_lit_chunks();
        assert forall|k: int| 0 <= k < e0.len() implies inner[k] == e0[k] by {}
        assert(s.subrange(i, i + e0.len()) =~= e0) by {
            assert forall|k: int| 0 <= k < e0.len() implies s.subrange(i, i + e0.len())[k]
                == e0[k] by {
                assert(s[i + k] == inner[k]);
            }
        }
        lemma_parse_entry_of_render(s, i, es[0].0, es[0].1);
        assert(inner[e0.len() as int] == ',');
        assert(s[i + e0.len()] == ',');
        let r0 = i + e0.len() + 1;
        assert(s.subrange(r0, r0 + rinner.len()) =~= rinner) by {
            assert forall|k: int| 0 <= k < rinner.len() implies s.subrange(
                r0,
                r0 + rinner.len(),
            )[k] == rinner[k] by {
                assert(s[r0 + k] == inner[e0.len() + 1 + k]);
                assert(inner[e0.len() + 1 + k] == rinner[k]);
            }
        }
        assert(s[r0 + rinner.len()] == ']') by {
            assert(r0 + rinner.len() == i + inner.len());
        }
        lemma_entries_rest_of_render(s, r0, rest, acc.push(es[0]));
        assert(acc.push(es[0]) + rest =~= acc + es);
        assert(spec_entries_rest(s, i, acc) == Some((acc + es, i + inner.len() + 1)));
    }
}

/// All the pieces of a canonical rendering parse back exactly, at their
/// places in the rendered text.
#[verifier::rlimit(60)]
proof fn lemma_snapshot_pieces(
    version: u64,
    timestamp: u64,
    es: Seq<(Seq<char>, Seq<char>)>,
)
    ensures
        ({
            let s = spec_render_snapshot(version, timestamp, es);
            let q1 = 11 + spec_u64_digits(version).len() as int;
            let q2 = q1 + 13 + spec_u64_digits(timestamp).len() as int;
            let ni = spec_render_entries_inner(es).len() as int;
            &&& s.len() == q2 + 11 + ni
            &&& s[0] == '{'
            &&& s[1] == '"'
            &&& spec_parse_string(s, 1) == Some(("version"@, 10int))
            &&& s[10] == ':'
            &&& spec_parse_number(s, 11) == Some((version, q1))
            &&& s[q1] == ','
            &&& s[q1 + 1] == '"'
            &&& spec_parse_string(s, q1 + 1) == Some(("timestamp"@, q1 + 12))
            &&& s[q1 + 12] == ':'
            &&& spec_parse_number(s, q1 + 13) == Some((timestamp, q2))
            &&& s[q2] == ','
            &&& s[q2 + 1] == '"'
            &&& spec_parse_string(s, q2 + 1) == Some(("data"@, q2 + 7))
            &&& s[q2 + 7] == ':'
            &&& s[q2 + 8] == '['
            &&& spec_parse_array(s, q2 + 8) == Some((es, q2 + 10 + ni))
            &&& s[q2 + 10 + ni] == '}'
            &&& "timestamp"@ != "version"@
            &&& "data"@ != "version"@
            &&& "data"@ != "timestamp"@
        }),
{
    lemma_lit_chunks();
    lemma_u64_digits_facts(version);
    lemma_u64_digits_facts(timestamp);
    let s = spec_render_snapshot(version, timestamp, es);
    let dv = spec_u64_digits(version);
    let dt = spec_u64_digits(timestamp);
    let inner = spec_render_entries_inner(es);
    let nv = dv.len() as int;
    let nt = dt.len() as int;
    let ni = inner.len() as int;
    let q1 = 11 + nv;
    let q2 = q1 + 13 + nt;
    assert(s.len() == q2 + 11 + ni);
    // the fixed characters of the rendering
    assert(s[0] == '{');
    assert(s[1] == '"');
    assert(s[9] == '"');
    assert(s[10] == ':');
    assert forall|j: int| 0 <= j < nv implies s[11 + j] == dv[j] by {}
    assert(s[q1] == ',');
    assert(s[q1 + 1] == '"');
    assert(s[q1 + 11] == '"');
    assert(s[q1 + 12] == ':');
    assert forall|j: int| 0 <= j < nt implies s[q1 + 13 + j] == dt[j] by {}
    assert(s[q2] == ',');
    assert(s[q2 + 1] == '"');
    assert(s[q2 + 6] == '"');
    assert(s[q2 + 7] == ':');
    assert(s[q2 + 8] == '[');
    assert forall|j: int| 0 <= j < ni implies s[q2 + 9 + j] == inner[j] by {}
    assert(s[q2 + 9 + ni] == ']');
    assert(s[q2 + 10 + ni] == '}');
    // the three member keys parse as plain strings
    assert(plain_chars("version"@));
    assert(s.subrange(2, 9) =~= "version"@) by {
        assert forall|j: int| 0 <= j < 7 implies s.subrange(2, 9)[j] == "version"@[j] by {
            assert(s.subrange(2, 9)[j] == s[2 + j]);
        }
    }
    lemma_parse_plain_string(s, 1, "version"@);
    assert(spec_parse_string(s, 1) == Some(("version"@, 10int)));
    assert(plain_chars("timestamp"@));
    assert(s.subrange(q1 + 2, q1 + 11) =~= "timestamp"@) by {
        assert forall|j: int| 0 <= j < 9 implies s.subrange(q1 + 2, q1 + 11)[j]
            == "timestamp"@[j] by {
            assert(s.subrange(q1 + 2, q1 + 11)[j] == s[q1 + 2 + j]);
        }
    }
    lemma_parse_plain_string(s, q1 + 1, "timestamp"@);
    assert(spec_parse_string(s, q1 + 1) == Some(("timestamp"@, q1 + 12)));
    assert(plain_chars("data"@));
    assert(s.subrange(q2 + 2, q2 + 6) =~= "data"@) by {
        assert forall|j: int| 0 <= j < 4 implies s.subrange(q2 + 2, q2 + 6)[j] == "data"@[j] by {
            assert(s.subrange(q2 + 2, q2 + 6)[j] == s[q2 + 2 + j]);
        }
    }
    lemma_parse_plain_string(s, q2 + 1, "data"@);
    assert(spec_parse_string(s, q2 + 1) == Some(("data"@, q2 + 7)));
    // the two numbers parse back exactly
    assert(s.subrange(11, 11 + nv) =~= dv) by {
        assert forall|j: int| 0 <= j < nv implies s.subrange(11, 11 + nv)[j] == dv[j] by {
            assert(s.subrange(11, 11 + nv)[j] == s[11 + j]);
        }
    }
    assert(!is_digit(s[11 + nv]));
    lemma_parse_number_of_digits(s, 11, version);
    assert(spec_parse_number(s, 11) == Some((version, q1)));
    assert(s.subrange(q1 + 13, q1 + 13 + nt) =~= dt) by {
        assert forall|j: int| 0 <= j < nt implies s.subrange(q1 + 13, q1 + 13 + nt)[j] == dt[j] by {
            assert(s.subrange(q1 + 13, q1 + 13 + nt)[j] == s[q1 + 13 + j]);
        }
    }
    assert(!is_digit(s[q1 + 13 + nt]));
    lemma_parse_number_of_digits(s, q1 + 13, timestamp);
    assert(spec_parse_number(s, q1 + 13) == Some((timestamp, q2)));
    // the keys differ
    assert("timestamp"@ != "version"@);
    assert("data"@ != "version"@);
    assert("data"@ != "timestamp"@);
    // the data array parses back exactly
    if es.len() == 0 {
        assert(inner =~= Seq::<char>::empty());
        assert(s[q2 + 9] == ']');
        assert(spec_parse_array(s, q2 + 8) == Some((Seq::<(Seq<char>, Seq<char>)>::empty(), q2 + 10)));
        assert(Seq::<(Seq<char>, Seq<char>)>::empty() =~= es);
    } else {
        assert(inner.len() >= 1) by {
            assert(spec_render_entry(es[0].0, es[0].1).len() >= 26);
        }
        assert(s[q2 + 9] == inner[0]);
        assert(inner[0] == '{') by {
            lemma_render_entry_first_char(es);
        }
        assert(s.subrange(q2 + 9, q2 + 9 + ni) =~= inner) by {
            assert forall|k: int| 0 <= k < ni implies s.subrange(q2 + 9, q2 + 9 + ni)[k]
                == inner[k] by {
                assert(s.subrange(q2 + 9, q2 + 9 + ni)[k] == s[q2 + 9 + k]);
            }
        }
        lemma_entries_rest_of_render(s, q2 + 9, es, Seq::empty());
        assert(Seq::<(Seq<char>, Seq<char>)>::empty() + es =~= es);
        assert(spec_parse_array(s, q2 + 8) == Some((es, q2 + 10 + ni)));
    }
}

/// Law: the reader reads every canonical rendering back exactly: the
/// pre-read finds the version and timestamp that were written, and the full
/// parse finds the very entries.
pub proof fn lemma_snapshot_round_trip(
    version: u64,
    timestamp: u64,
    es: Seq<(Seq<char>, Seq<char>)>,
)
    ensures
        spec_parse_header(spec_render_snapshot(version, timestamp, es)) == Some(
            (version, timestamp),
        ),
        spec_parse_snapshot(spec_render_snapshot(version, timestamp, es)) == Some(
            SnapshotView { version, timestamp, entries: es },
        ),
{
    lemma_snapshot_pieces(version, timestamp, es);
    let s = spec_render_snapshot(version, timestamp, es);
    let q1 = 11 + spec_u64_digits(version).len() as int;
    let q2 = q1 + 13 + spec_u64_digits(timestamp).len() as int;
    let ni = spec_render_entries_inner(es).len() as int;
    assert(spec_header_members(s, q1 + 1, Some(version), None) == Some((version, timestamp)));
    assert(spec_header_members(s, 1, None, None) == Some((version, timestamp)));
    assert(spec_parse_header(s) == Some((version, timestamp)));
    assert(spec_full_members(s, q2 + 1, Some(version), Some(timestamp), None) == Some(
        (SnapshotView { version, timestamp, entries: es }, q2 + 11 + ni),
    ));
    assert(spec_full_members(s, q1 + 1, Some(version), None, None) == Some(
        (SnapshotView { version, timestamp, entries: es }, q2 + 11 + ni),
    ));
    assert(spec_full_members(s, 1, None, None, None) == Some(
        (SnapshotView { version, timestamp, entries: es }, q2 + 11 + ni),
    ));
    assert(spec_parse_snapshot(s) == Some(SnapshotView { version, timestamp, entries: es }));
}


proof fn lemma_render_entry_first_char(es: Seq<(Seq<char>, Seq<char>)>)
    requires
        es.len() >= 1,
    ensures
        spec_render_entries_inner(es)[0] == '{',
        spec_render_entries_inner(es).len() >= 1,
{
    lemma_lit_chunks();
    let e0 = spec_render_entry(es[0].0, es[0].1);
    assert(e0[0] == '{');
    if es.len() == 1 {
        assert(spec_render_entries_inner(es) == e0);
    } else {
        assert(spec_render_entries_inner(es) == e0 + ","@ + spec_render_entries_inner(
            es.drop_first(),
        ));
        assert(spec_render_entries_inner(es)[0] == e0[0]);
    }
}

} // verus!
