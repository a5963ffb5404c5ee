use vstd::prelude::*;
use crate::text::{chars_to_string, str_to_chars};

verus! {

/// A parameter byte of a select-graphic-rendition sequence: a digit or a semicolon.
pub open spec fn is_sgr_param(c: char) -> bool {
    c == ';' || ('0' as u32) <= (c as u32) && (c as u32) <= ('9' as u32)
}

/// The first position at or after `i` holding a character that is not a
/// parameter byte; the length of the text when every remaining character is one.
pub open spec fn first_non_param(s: Seq<char>, i: int) -> int
    decreases s.len() - i,
{
    if i < 0 || i >= s.len() {
        i
    } else if is_sgr_param(s[i]) {
        first_non_param(s, i + 1)
    } else {
        i
    }
}

/// Whether a full select-graphic-rendition sequence (escape, `[`, parameter
/// bytes, `m`) starts at position `i`.
pub open spec fn has_sgr_at(s: Seq<char>, i: int) -> bool {
    &&& 0 <= i
    &&& i + 2 <= s.len()
    &&& s[i] == '\x1b'
    &&& s[i + 1] == '['
    &&& first_non_param(s, i + 2) < s.len()
    &&& s[first_non_param(s, i + 2)] == 'm'
}

/// The position right after the sequence starting at `i`.
pub open spec fn sgr_end(s: Seq<char>, i: int) -> int {
    first_non_param(s, i + 2) + 1
}

/// The text from position `i` on with every select-graphic-rendition
/// sequence removed; a truncated or malformed sequence is left as it is.
pub open spec fn strip_from(s: Seq<char>, i: int) -> Seq<char>
    decreases s.len() - i,
{
    if i < 0 || i >= s.len() {
        Seq::empty()
    } else if has_sgr_at(s, i) {
        let j = sgr_end(s, i);
        if i < j <= s.len() {
            strip_from(s, j)
        } else {
            Seq::empty()
        }
    } else {
        seq![s[i]] + strip_from(s, i + 1)
    }
}

/// The text with every select-graphic-rendition sequence removed.
pub open spec fn strip_ansi_spec(s: Seq<char>) -> Seq<char> {
    strip_from(s, 0)
}

/// A white-space character, as Unicode defines the property.
pub open spec fn is_space_char(c: char) -> bool {
    let u = c as u32;
    ||| u == 0x09
    ||| u == 0x0A
    ||| u == 0x0B
    ||| u == 0x0C
    ||| u == 0x0D
    ||| u == 0x20
    ||| u == 0x85
    ||| u == 0xA0
    ||| u == 0x1680
    ||| 0x2000 <= u && u <= 0x200A
    ||| u == 0x2028
    ||| u == 0x2029
    ||| u == 0x202F
    ||| u == 0x205F
    ||| u == 0x3000
}

/// The first position at or after `i` holding a non-white-space character.
pub open spec fn first_non_space(s: Seq<char>, i: int) -> int
    decreases s.len() - i,
{
    if i < 0 || i >= s.len() {
        i
    } else if is_space_char(s[i]) {
        first_non_space(s, i + 1)
    } else {
        i
    }
}

/// The last position at or before `i` holding a non-white-space character,
/// or -1 when there is none.
pub open spec fn last_non_space(s: Seq<char>, i: int) -> int
    decreases i + 1,
{
    if i < 0 || i >= s.len() {
        -1
    } else if is_space_char(s[i]) {
        last_non_space(s, i - 1)
    } else {
        i
    }
}

/// The text with leading and trailing white space removed.
pub open spec fn trim_spec(s: Seq<char>) -> Seq<char> {
    let a = first_non_space(s, 0);
    let b = last_non_space(s, s.len() - 1);
    if a <= b {
        s.subrange(a, b + 1)
    } else {
        Seq::empty()
    }
}

/// What remains of a raw line once sanitized and trimmed.
pub open spec fn clean_msg(raw: Seq<char>) -> Seq<char> {
    trim_spec(strip_ansi_spec(raw))
}

fn is_sgr_param_exec(c: char) -> (r: bool)
    ensures
        r == is_sgr_param(c),
{
    c == ';' || ('0' as u32) <= (c as u32) && (c as u32) <= ('9' as u32)
}

fn is_space_exec(c: char) -> (r: bool)
    ensures
        r == is_space_char(c),
{
    let u = c as u32;
    u == 0x09 || u == 0x0A || u == 0x0B || u == 0x0C || u == 0x0D || u == 0x20 || u == 0x85
        || u == 0xA0 || u == 0x1680 || (0x2000 <= u && u <= 0x200A) || u == 0x2028 || u == 0x2029
        || u == 0x202F || u == 0x205F || u == 0x3000
}

proof fn lemma_first_non_param_at(s: Seq<char>, a: int, j: int)
    requires
        0 <= a <= j <= s.len(),
        forall|k: int| a <= k < j ==> is_sgr_param(s[k]),
        j == s.len() || !is_sgr_param(s[j]),
    ensures
        first_non_param(s, a) == j,
    decreases j - a,
{
    if a < j {
        lemma_first_non_param_at(s, a + 1, j);
    }
}

/// Removes every select-graphic-rendition sequence from the characters.
fn strip_ansi_chars(cs: &Vec<char>) -> (out: Vec<char>)
    ensures
        out@ == strip_ansi_spec(cs@),
{
    let mut out: Vec<char> = Vec::new();
    let mut i: usize = 0;
    while i < cs.len()
        invariant
            i <= cs@.len(),
            strip_ansi_spec(cs@) == out@ + strip_from(cs@, i as int),
        decreases cs@.len() - i,
    {
        let c = cs[i];
        let mut matched: bool = false;
        let mut next: usize = i + 1;
        if c == '\x1b' && i + 1 < cs.len() && cs[i + 1] == '[' {
            let mut j = i + 2;
            while j < cs.len() && is_sgr_param_exec(cs[j])
                invariant
                    i + 2 <= j <= cs@.len(),
                    forall|k: int| i + 2 <= k < j ==> is_sgr_param(cs@[k]),
                decreases cs@.len() - j,
            {
                j += 1;
            }
            proof {
                lemma_first_non_param_at(cs@, i + 2, j as int);
            }
            if j < cs.len() && cs[j] == 'm' {
                assert(has_sgr_at(cs@, i as int));
                assert(strip_from(cs@, i as int) == strip_from(cs@, j + 1 as int));
                matched = true;
                next = j + 1;
            }
        }
        if !matched {
            assert(!has_sgr_at(cs@, i as int));
            assert(strip_from(cs@, i as int) == seq![cs@[i as int]] + strip_from(
                cs@,
                i + 1 as int,
            ));
            out.push(c);
            assert(out@ + strip_from(cs@, i + 1 as int) =~= strip_ansi_spec(cs@));
        }
        i = next;
    }
    assert(out@ =~= strip_ansi_spec(cs@));
    out
}

/// Removes leading and trailing white space from the characters.
fn trim_chars(cs: &Vec<char>) -> (out: Vec<char>)
    ensures
        out@ == trim_spec(cs@),
{
    let n = cs.len();
    let mut a: usize = 0;
    while a < n && is_space_exec(cs[a])
        invariant
            n == cs@.len(),
            a <= n,
            forall|k: int| 0 <= k < a ==> is_space_char(cs@[k]),
        decreases n - a,
    {
        a += 1;
    }
    proof {
        lemma_first_non_space_at(cs@, 0, a as int);
    }
    if a == n {
        proof {
            lemma_last_non_space_all(cs@, n - 1 as int);
        }
        let out: Vec<char> = Vec::new();
        assert(out@ =~= trim_spec(cs@));
        return out;
    }
    let mut b: usize = n - 1;
    while is_space_exec(cs[b])
        invariant
            n == cs@.len(),
            a < n,
            a <= b < n,
            !is_space_char(cs@[a as int]),
            forall|k: int| b < k < n ==> is_space_char(cs@[k]),
        decreases b,
    {
        b -= 1;
    }
    proof {
        lemma_last_non_space_at(cs@, b as int, n - 1 as int);
    }
    let mut out: Vec<char> = Vec::new();
    let mut i: usize = a;
    while i <= b
        invariant
            a <= i <= b + 1,
            n == cs@.len(),
            b < n,
            out@ == cs@.subrange(a as int, i as int),
        decreases b + 1 - i,
    {
        out.push(cs[i]);
        assert(out@ =~= cs@.subrange(a as int, i + 1 as int));
        i += 1;
    }
    assert(out@ =~= trim_spec(cs@));
    out
}

proof fn lemma_first_non_space_at(s: Seq<char>, a: int, j: int)
    requires
        0 <= a <= j <= s.len(),
        forall|k: int| a <= k < j ==> is_space_char(s[k]),
        j == s.len() || !is_space_char(s[j]),
    ensures
        first_non_space(s, a) == j,
    decreases j - a,
{
    if a < j {
        lemma_first_non_space_at(s, a + 1, j);
    }
}

proof fn lemma_last_non_space_all(s: Seq<char>, i: int)
    requires
        i < s.len(),
        forall|k: int| 0 <= k <= i ==> is_space_char(s[k]),
    ensures
        last_non_space(s, i) == -1,
    decreases i + 1,
{
    if i >= 0 {
        lemma_last_non_space_all(s, i - 1);
    }
}

proof fn lemma_last_non_space_at(s: Seq<char>, b: int, i: int)
    requires
        0 <= b <= i < s.len(),
        !is_space_char(s[b]),
        forall|k: int| b < k <= i ==> is_space_char(s[k]),
    ensures
        last_non_space(s, i) == b,
    decreases i - b,
{
    if b < i {
        lemma_last_non_space_at(s, b, i - 1);
    }
}

/// Removes every select-graphic-rendition escape sequence — the pattern
/// escape, `[`, digits or semicolons, `m` — from the text; nothing else is
/// altered, and an incomplete sequence is left in place.
pub fn strip_ansi_codes(s: &str) -> (r: String)
    ensures
        r@ == strip_ansi_spec(s@),
{
    let cs = str_to_chars(s);
    let out = strip_ansi_chars(&cs);
    chars_to_string(&out)
}

/// Removes leading and trailing white space from the text.
pub fn trim_text(s: &str) -> (r: String)
    ensures
        r@ == trim_spec(s@),
{
    let cs = str_to_chars(s);
    let out = trim_chars(&cs);
    chars_to_string(&out)
}

/// Sanitizes a raw line: escape sequences removed, then surrounding white
/// space trimmed.
pub fn clean_message(raw: &str) -> (r: String)
    ensures
        r@ == clean_msg(raw@),
{
    let cs = str_to_chars(raw);
    let stripped = strip_ansi_chars(&cs);
    let trimmed = trim_chars(&stripped);
    chars_to_string(&trimmed)
}

} // verus!
