use vstd::prelude::*;
use vstd::string::*;

verus! {

/// Relies on `String::push`: the character is appended at the end of the string.
pub assume_specification[ String::push ](s: &mut String, ch: char)
    ensures
        final(s)@ == old(s)@.push(ch),
;

/// `n` space characters.
pub open spec fn spaces(n: nat) -> Seq<char> {
    Seq::new(n, |_i: int| ' ')
}

/// `line` padded on the right with spaces up to `n` characters (unchanged when already as long).
pub open spec fn padded(line: Seq<char>, n: nat) -> Seq<char> {
    if line.len() >= n {
        line
    } else {
        line + spaces((n - line.len()) as nat)
    }
}

/// The number of characters (not bytes) of `s`.
pub fn char_count(s: &String) -> (n: usize)
    ensures
        n == s@.len(),
{
    s.as_str().unicode_len()
}

/// The characters of `s` from position `from` up to (not including) `to`.
pub fn char_slice(s: &String, from: usize, to: usize) -> (r: String)
    requires
        from <= to <= s@.len(),
    ensures
        r@ == s@.subrange(from as int, to as int),
{
    s.as_str().substring_char(from, to).to_owned()
}

/// `s` with `c` placed at character position `col`, the line first padded with spaces
/// when it is shorter than `col`.
pub fn with_char_inserted(s: &String, col: usize, c: char) -> (r: String)
    ensures
        r@ == padded(s@, col as nat).insert(col as int, c),
        r@.len() <= usize::MAX,
{
    let len = char_count(s);
    if col <= len {
        let mut r = char_slice(s, 0, col);
        r.push(c);
        r.append(s.as_str().substring_char(col, len));
        // counting the characters shows that their number fits in a usize
        let _len = char_count(&r);
        assert(r@ =~= padded(s@, col as nat).insert(col as int, c));
        r
    } else {
        let mut r = s.clone();
        let mut k: usize = len;
        while k < col
            invariant
                len <= k <= col,
                len == s@.len(),
                r@ == padded(s@, k as nat),
            decreases col - k,
        {
            r.push(' ');
            k = k + 1;
            assert(r@ =~= padded(s@, k as nat));
        }
        r.push(c);
        let _len = char_count(&r);
        assert(r@ =~= padded(s@, col as nat).insert(col as int, c));
        r
    }
}

/// `s` without the character at position `col`.
pub fn with_char_removed(s: &String, col: usize) -> (r: String)
    requires
        col < s@.len(),
    ensures
        r@ == s@.remove(col as int),
{
    let len = char_count(s);
    let mut r = char_slice(s, 0, col);
    r.append(s.as_str().substring_char(col + 1, len));
    assert(r@ =~= s@.remove(col as int));
    r
}

} // verus!
