//! Where a session is kept on disk: below the sessions root, in a directory
//! named after the working directory, in a file named after the session.
//!
//! The name of the directory is the working directory with every character
//! that is not safe in a file name written as `%` and six hexadecimal
//! digits. No two working directories get the same name.

use crate::text::{chars_of, push_char, string_of};
use vstd::prelude::*;

verus! {

/// Whether a character stands for itself in a directory name: an ASCII
/// letter or digit, `.`, `_` or `-`.
pub open spec fn is_safe(c: char) -> bool {
    ('a' <= c && c <= 'z') || ('A' <= c && c <= 'Z') || ('0' <= c && c <= '9') || c == '.' || c
        == '_' || c == '-'
}

/// The character of a hexadecimal digit.
pub open spec fn hex_char(d: u32) -> char {
    if d == 0 {
        '0'
    } else if d == 1 {
        '1'
    } else if d == 2 {
        '2'
    } else if d == 3 {
        '3'
    } else if d == 4 {
        '4'
    } else if d == 5 {
        '5'
    } else if d == 6 {
        '6'
    } else if d == 7 {
        '7'
    } else if d == 8 {
        '8'
    } else if d == 9 {
        '9'
    } else if d == 10 {
        'a'
    } else if d == 11 {
        'b'
    } else if d == 12 {
        'c'
    } else if d == 13 {
        'd'
    } else if d == 14 {
        'e'
    } else {
        'f'
    }
}

/// The digit of `n` at the given place, counted from the right.
pub open spec fn nibble(n: u32, place: u32) -> u32 {
    (n >> (4 * place) as u32) & 0xf
}

/// A character that is not safe: `%` and the six hexadecimal digits of its
/// code point.
pub open spec fn escaped(c: char) -> Seq<char> {
    let n = c as u32;
    seq![
        '%',
        hex_char(nibble(n, 5)),
        hex_char(nibble(n, 4)),
        hex_char(nibble(n, 3)),
        hex_char(nibble(n, 2)),
        hex_char(nibble(n, 1)),
        hex_char(nibble(n, 0)),
    ]
}

/// What stands for a character in a directory name.
pub open spec fn encoded_char(c: char) -> Seq<char> {
    if is_safe(c) {
        seq![c]
    } else {
        escaped(c)
    }
}

/// The directory name of a working directory.
pub open spec fn encoded_cwd(cwd: Seq<char>) -> Seq<char>
    decreases cwd.len(),
{
    if cwd.len() == 0 {
        Seq::empty()
    } else {
        encoded_char(cwd[0]) + encoded_cwd(cwd.drop_first())
    }
}

/// A number below 2^24 is given by its six hexadecimal digits.
pub proof fn lemma_nibbles_give_the_number(a: u32, b: u32)
    requires
        a < 0x1000000,
        b < 0x1000000,
        nibble(a, 0) == nibble(b, 0),
        nibble(a, 1) == nibble(b, 1),
        nibble(a, 2) == nibble(b, 2),
        nibble(a, 3) == nibble(b, 3),
        nibble(a, 4) == nibble(b, 4),
        nibble(a, 5) == nibble(b, 5),
    ensures
        a == b,
{
    assert(a == b) by (bit_vector)
        requires
            a < 0x1000000,
            b < 0x1000000,
            (a >> 0u32) & 0xf == (b >> 0u32) & 0xf,
            (a >> 4u32) & 0xf == (b >> 4u32) & 0xf,
            (a >> 8u32) & 0xf == (b >> 8u32) & 0xf,
            (a >> 12u32) & 0xf == (b >> 12u32) & 0xf,
            (a >> 16u32) & 0xf == (b >> 16u32) & 0xf,
            (a >> 20u32) & 0xf == (b >> 20u32) & 0xf,
    ;
}

/// A digit is below sixteen.
pub proof fn lemma_nibble_small(n: u32, place: u32)
    requires
        place < 6,
    ensures
        nibble(n, place) < 16,
{
    let shift = (4 * place) as u32;
    assert((n >> shift) & 0xf < 16) by (bit_vector);
}

/// Two characters that are written the same are the same.
pub proof fn lemma_encoded_char_injective(a: char, b: char)
    requires
        encoded_char(a) == encoded_char(b),
    ensures
        a == b,
{
    if is_safe(a) {
        assert(encoded_char(a)[0] == a);
        if !is_safe(b) {
            assert(encoded_char(b)[0] == '%');
        } else {
            assert(encoded_char(b)[0] == b);
        }
    } else {
        assert(encoded_char(a)[0] == '%');
        if is_safe(b) {
            assert(encoded_char(b)[0] == b);
        } else {
            let x = a as u32;
            let y = b as u32;
            lemma_nibble_small(x, 0);
            lemma_nibble_small(x, 1);
            lemma_nibble_small(x, 2);
            lemma_nibble_small(x, 3);
            lemma_nibble_small(x, 4);
            lemma_nibble_small(x, 5);
            lemma_nibble_small(y, 0);
            lemma_nibble_small(y, 1);
            lemma_nibble_small(y, 2);
            lemma_nibble_small(y, 3);
            lemma_nibble_small(y, 4);
            lemma_nibble_small(y, 5);
            assert(escaped(a)[1] == escaped(b)[1]);
            assert(escaped(a)[2] == escaped(b)[2]);
            assert(escaped(a)[3] == escaped(b)[3]);
            assert(escaped(a)[4] == escaped(b)[4]);
            assert(escaped(a)[5] == escaped(b)[5]);
            assert(escaped(a)[6] == escaped(b)[6]);
            lemma_nibbles_give_the_number(x, y);
        }
    }
}

/// The encoding is reversible: working directories with the same name are
/// the same working directory.
pub proof fn lemma_encoded_cwd_injective(a: Seq<char>, b: Seq<char>)
    requires
        encoded_cwd(a) == encoded_cwd(b),
    ensures
        a == b,
    decreases a.len(),
{
    if a.len() == 0 {
        if b.len() > 0 {
            assert(encoded_char(b[0]).len() > 0);
            assert(encoded_cwd(b).len() > 0);
        }
        assert(a =~= b);
    } else if b.len() == 0 {
        assert(encoded_char(a[0]).len() > 0);
        assert(encoded_cwd(a).len() > 0);
    } else {
        let ea = encoded_char(a[0]);
        let eb = encoded_char(b[0]);
        let ra = encoded_cwd(a.drop_first());
        let rb = encoded_cwd(b.drop_first());
        let whole = encoded_cwd(a);
        assert(whole == ea + ra);
        assert(whole == eb + rb);
        assert(whole[0] == ea[0] && whole[0] == eb[0]);
        if is_safe(a[0]) {
            assert(ea[0] == a[0]);
            if !is_safe(b[0]) {
                assert(eb[0] == '%');
            }
        } else {
            assert(ea[0] == '%');
            if is_safe(b[0]) {
                assert(eb[0] == b[0]);
            }
        }
        assert(ea.len() == eb.len());
        assert forall|k: int| 0 <= k < ea.len() implies ea[k] == eb[k] by {
            assert(whole[k] == ea[k] && whole[k] == eb[k]);
        }
        assert(ea =~= eb);
        lemma_encoded_char_injective(a[0], b[0]);
        assert forall|k: int| 0 <= k < ra.len() implies ra[k] == rb[k] by {
            assert(whole[ea.len() + k] == ra[k]);
            assert(whole[eb.len() + k] == rb[k]);
        }
        assert(ra.len() == rb.len());
        assert(ra =~= rb);
        lemma_encoded_cwd_injective(a.drop_first(), b.drop_first());
        assert(a =~= seq![a[0]] + a.drop_first());
        assert(b =~= seq![b[0]] + b.drop_first());
    }
}

/// The character of a hexadecimal digit.
pub fn hex_digit_of(d: u32) -> (c: char)
    requires
        d < 16,
    ensures
        c == hex_char(d),
{
    if d == 0 {
        '0'
    } else if d == 1 {
        '1'
    } else if d == 2 {
        '2'
    } else if d == 3 {
        '3'
    } else if d == 4 {
        '4'
    } else if d == 5 {
        '5'
    } else if d == 6 {
        '6'
    } else if d == 7 {
        '7'
    } else if d == 8 {
        '8'
    } else if d == 9 {
        '9'
    } else if d == 10 {
        'a'
    } else if d == 11 {
        'b'
    } else if d == 12 {
        'c'
    } else if d == 13 {
        'd'
    } else if d == 14 {
        'e'
    } else {
        'f'
    }
}

fn digit_at(n: u32, place: u32) -> (c: char)
    requires
        place < 6,
    ensures
        c == hex_char(nibble(n, place)),
{
    let shift: u32 = 4 * place;
    let d: u32 = (n >> shift) & 0xf;
    assert(d < 16) by (bit_vector)
        requires
            d == (n >> shift) & 0xf,
    ;
    hex_digit_of(d)
}

/// The directory name of a working directory.
pub fn encode_cwd(cwd: &str) -> (r: String)
    ensures
        r@ == encoded_cwd(cwd@),
{
    let v = chars_of(cwd);
    let mut out: Vec<char> = Vec::new();
    let mut i: usize = 0;
    proof {
        assert(v@.skip(0) =~= v@);
    }
    while i < v.len()
        invariant
            i <= v.len(),
            v@ == cwd@,
            encoded_cwd(v@) == out@ + encoded_cwd(v@.skip(i as int)),
        decreases v.len() - i,
    {
        let c = v[i];
        let ghost before = out@;
        let ghost rest = v@.skip(i as int);
        proof {
            assert(rest[0] == c);
            assert(rest.drop_first() =~= v@.skip(i + 1));
        }
        let safe = ('a' <= c && c <= 'z') || ('A' <= c && c <= 'Z') || ('0' <= c && c <= '9') || c
            == '.' || c == '_' || c == '-';
        if safe {
            out.push(c);
        } else {
            let n = c as u32;
            out.push('%');
            out.push(digit_at(n, 5));
            out.push(digit_at(n, 4));
            out.push(digit_at(n, 3));
            out.push(digit_at(n, 2));
            out.push(digit_at(n, 1));
            out.push(digit_at(n, 0));
        }
        assert(out@ =~= before + encoded_char(c));
        assert(out@ + encoded_cwd(v@.skip(i + 1)) =~= before + (encoded_char(c) + encoded_cwd(
            rest.drop_first(),
        )));
        i += 1;
    }
    assert(out@ + encoded_cwd(v@.skip(i as int)) =~= out@);
    string_of(out.as_slice())
}

/// The path of a session's file: `{root}/{encoded cwd}/{session id}.jsonl`.
pub open spec fn session_path_of(root: Seq<char>, cwd: Seq<char>, id: Seq<char>) -> Seq<char> {
    root.push('/') + encoded_cwd(cwd) + seq!['/'] + id + ".jsonl"@
}

/// The path of a session's file below the sessions root.
pub fn session_path(root: &str, cwd: &str, id: &str) -> (r: String)
    ensures
        r@ == session_path_of(root@, cwd@, id@),
{
    let mut out = String::from_str(root);
    push_char(&mut out, '/');
    out.append(encode_cwd(cwd).as_str());
    push_char(&mut out, '/');
    out.append(id);
    out.append(".jsonl");
    assert(out@ =~= session_path_of(root@, cwd@, id@));
    out
}

} // verus!
