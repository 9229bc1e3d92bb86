//! Text building blocks: indentation, decimal numbers and artifact file names.
use vstd::prelude::*;

verus! {

/// Relies on `String::push`: the character is appended at the end.
pub assume_specification[ String::push ](s: &mut String, ch: char)
    ensures
        final(s)@ == old(s)@.push(ch),
;

/// Most directory-nesting levels that the tree rendering indents.
pub const MAX_INDENT_LEVELS: usize = 10;

/// Longest artifact file name stem, in characters.
pub const MAX_STEM_CHARS: usize = 150;

/// One level of indentation: a vertical bar and three spaces.
pub open spec fn indent_unit() -> Seq<char> {
    seq!['│', ' ', ' ', ' ']
}

/// `n` indentation units in a row.
pub open spec fn indent_of(n: nat) -> Seq<char>
    decreases n,
{
    if n == 0 {
        Seq::empty()
    } else {
        indent_of((n - 1) as nat) + indent_unit()
    }
}

/// The indentation of a nesting level, capped at `MAX_INDENT_LEVELS` levels.
pub open spec fn capped_indent(depth: nat) -> Seq<char> {
    if depth <= MAX_INDENT_LEVELS {
        indent_of(depth)
    } else {
        indent_of(MAX_INDENT_LEVELS as nat)
    }
}

/// The indentation prefix of a tree line at nesting level `depth`.
pub fn get_indent(depth: usize) -> (r: String)
    ensures
        r@ == capped_indent(depth as nat),
{
    let levels: usize = if depth < MAX_INDENT_LEVELS { depth } else { MAX_INDENT_LEVELS };
    let mut result = String::new();
    let mut i: usize = 0;
    while i < levels
        invariant
            i <= levels,
            levels <= MAX_INDENT_LEVELS,
            levels as nat == if depth <= MAX_INDENT_LEVELS { depth as nat } else { MAX_INDENT_LEVELS as nat },
            result@ == indent_of(i as nat),
        decreases levels - i,
    {
        result.push('│');
        result.push(' ');
        result.push(' ');
        result.push(' ');
        assert(result@ =~= indent_of(i as nat) + indent_unit());
        i = i + 1;
    }
    result
}

/// The decimal digit for a value below ten.
pub open spec fn digit_char(d: nat) -> char {
    if d == 0 { '0' }
    else if d == 1 { '1' }
    else if d == 2 { '2' }
    else if d == 3 { '3' }
    else if d == 4 { '4' }
    else if d == 5 { '5' }
    else if d == 6 { '6' }
    else if d == 7 { '7' }
    else if d == 8 { '8' }
    else { '9' }
}

/// The decimal notation of `n`, without leading zeros.
pub open spec fn decimal_of(n: nat) -> Seq<char>
    decreases n,
{
    if n < 10 {
        seq![digit_char(n)]
    } else {
        decimal_of(n / 10).push(digit_char(n % 10))
    }
}

fn digit(d: usize) -> (c: char)
    requires
        d < 10,
    ensures
        c == digit_char(d as nat),
{
    if d == 0 { '0' }
    else if d == 1 { '1' }
    else if d == 2 { '2' }
    else if d == 3 { '3' }
    else if d == 4 { '4' }
    else if d == 5 { '5' }
    else if d == 6 { '6' }
    else if d == 7 { '7' }
    else if d == 8 { '8' }
    else { '9' }
}

/// The decimal notation of a count.
pub fn decimal(n: usize) -> (r: String)
    ensures
        r@ == decimal_of(n as nat),
    decreases n,
{
    if n < 10 {
        let mut r = String::new();
        r.push(digit(n));
        assert(r@ =~= seq![digit_char(n as nat)]);
        r
    } else {
        let mut r = decimal(n / 10);
        r.push(digit(n % 10));
        r
    }
}

/// A path separator, forward or backward slash.
pub open spec fn is_separator(c: char) -> bool {
    c == '/' || c == '\\'
}

/// A character of a flattened path: separators become underscores.
pub open spec fn flatten_char(c: char) -> char {
    if is_separator(c) { '_' } else { c }
}

/// The artifact stem of a relative path: separators replaced by underscores,
/// cut to its first `MAX_STEM_CHARS` characters.
pub open spec fn sanitized(path: Seq<char>) -> Seq<char> {
    let n: nat = if path.len() <= MAX_STEM_CHARS { path.len() } else { MAX_STEM_CHARS as nat };
    Seq::new(n, |i: int| flatten_char(path[i]))
}

/// Flattens a relative path into a file name stem.
pub fn sanitize_filename(path: &str) -> (r: String)
    ensures
        r@ == sanitized(path@),
{
    let len = path.unicode_len();
    let n: usize = if len < MAX_STEM_CHARS { len } else { MAX_STEM_CHARS };
    let mut result = String::new();
    let mut i: usize = 0;
    while i < n
        invariant
            i <= n,
            n <= len,
            len == path@.len(),
            n as int == sanitized(path@).len(),
            result@ =~= sanitized(path@).subrange(0, i as int),
        decreases n - i,
    {
        let c = path.get_char(i);
        if c == '/' || c == '\\' {
            result.push('_');
        } else {
            result.push(c);
        }
        i = i + 1;
    }
    result
}

} // verus!
