use vstd::prelude::*;

use crate::text::{chars_of, lines_of, push_char, split_lines, string_of};

verus! {

/// The SHA-256 digest of some bytes.
pub uninterp spec fn sha256_of(data: Seq<u8>) -> Seq<u8>;

/// Relies on `sha2::Sha256::digest`: the 32-byte SHA-256 digest of the data.
#[verifier::external_body]
fn sha256_digest(data: &[u8]) -> (r: Vec<u8>)
    ensures
        r@ == sha256_of(data@),
        r@.len() == 32,
{
    <sha2::Sha256 as sha2::Digest>::digest(data).to_vec()
}

pub open spec fn hex_digit(n: nat) -> char {
    if n < 10 {
        ((48 + n) as u8) as char
    } else {
        ((87 + n) as u8) as char
    }
}

/// Two lowercase hexadecimal digits per byte.
pub open spec fn hex_of(b: Seq<u8>) -> Seq<char>
    decreases b.len(),
{
    if b.len() == 0 {
        Seq::empty()
    } else {
        hex_of(b.drop_last()) + seq![hex_digit((b.last() / 16) as nat), hex_digit((b.last() % 16) as nat)]
    }
}

fn hex_char(n: u8) -> (r: char)
    requires
        n < 16,
    ensures
        r == hex_digit(n as nat),
{
    if n < 10 {
        (48u8 + n) as char
    } else {
        (87u8 + n) as char
    }
}

/// Writes bytes as lowercase hexadecimal.
pub fn to_hex(bytes: &[u8]) -> (r: String)
    ensures
        r@ == hex_of(bytes@),
{
    let mut out = String::new();
    let mut i: usize = 0;
    while i < bytes.len()
        invariant
            i <= bytes@.len(),
            out@ == hex_of(bytes@.subrange(0, i as int)),
        decreases bytes@.len() - i,
    {
        let b = bytes[i];
        push_char(&mut out, hex_char(b / 16));
        push_char(&mut out, hex_char(b % 16));
        assert(bytes@.subrange(0, i + 1).drop_last() =~= bytes@.subrange(0, i as int));
        i = i + 1;
        assert(out@ =~= hex_of(bytes@.subrange(0, i as int)));
    }
    assert(bytes@.subrange(0, bytes@.len() as int) =~= bytes@);
    out
}

/// The SHA-256 digest of `data` in lowercase hexadecimal.
pub fn sha256_hex(data: &[u8]) -> (r: String)
    ensures
        r@ == hex_of(sha256_of(data@)),
{
    let digest = sha256_digest(data);
    to_hex(digest.as_slice())
}

/// Whether a digest is the one a checksum list published, in hexadecimal.
pub fn digest_matches(expected: &str, digest: &[u8]) -> (r: bool)
    ensures
        r == (expected@ == hex_of(digest@)),
{
    let actual = to_hex(digest);
    let e = String::from_str(expected);
    e == actual
}

/// Whether downloaded bytes match the published checksum.
pub fn checksum_matches(expected: &str, data: &[u8]) -> (r: bool)
    ensures
        r == (expected@ == hex_of(sha256_of(data@))),
{
    let digest = sha256_digest(data);
    digest_matches(expected, digest.as_slice())
}

pub open spec fn is_space(c: char) -> bool {
    c == ' ' || c == '\t'
}

/// The words finished so far in `s`, and the word still being read.
pub open spec fn word_split(s: Seq<char>) -> (Seq<Seq<char>>, Seq<char>)
    decreases s.len(),
{
    if s.len() == 0 {
        (Seq::empty(), Seq::empty())
    } else {
        let (ws, cur) = word_split(s.drop_last());
        if is_space(s.last()) {
            if cur.len() > 0 { (ws.push(cur), Seq::empty()) } else { (ws, Seq::empty()) }
        } else {
            (ws, cur.push(s.last()))
        }
    }
}

/// The words of a line, separated by spaces and tabs.
pub open spec fn words(s: Seq<char>) -> Seq<Seq<char>> {
    let (ws, cur) = word_split(s);
    if cur.len() > 0 { ws.push(cur) } else { ws }
}

/// Splits a line into its words.
pub fn split_words(line: &str) -> (r: Vec<String>)
    ensures
        r@.map_values(|w: String| w@) == words(line@),
{
    let cs = chars_of(line);
    let mut out: Vec<String> = Vec::new();
    let mut start: usize = 0;
    let mut i: usize = 0;
    while i < cs.len()
        invariant
            cs@ == line@,
            start <= i <= cs@.len(),
            word_split(cs@.subrange(0, i as int)) == (out@.map_values(|w: String| w@), cs@.subrange(start as int, i as int)),
        decreases cs@.len() - i,
    {
        assert(cs@.subrange(0, i + 1).drop_last() =~= cs@.subrange(0, i as int));
        if cs[i] == ' ' || cs[i] == '\t' {
            if start < i {
                let w = string_of(&cs, start, i);
                let ghost prev = out@;
                out.push(w);
                assert(out@.map_values(|w: String| w@) =~= prev.map_values(|w: String| w@).push(cs@.subrange(start as int, i as int)));
            }
            start = i + 1;
        } else {
            assert(cs@.subrange(start as int, i + 1) =~= cs@.subrange(start as int, i as int).push(cs@[i as int]));
        }
        i = i + 1;
        assert(cs@.subrange(start as int, i as int).len() == 0 ==> cs@.subrange(start as int, i as int) =~= Seq::<char>::empty());
    }
    assert(cs@.subrange(0, cs@.len() as int) =~= cs@);
    if start < cs.len() {
        let w = string_of(&cs, start, cs.len());
        let ghost prev = out@;
        out.push(w);
        assert(out@.map_values(|w: String| w@) =~= prev.map_values(|w: String| w@).push(cs@.subrange(start as int, cs@.len() as int)));
    }
    out
}

/// The checksum that `lines[k..]` list for `name`: the first word of the
/// first line whose second word is `name`.
pub open spec fn checksum_from(lines: Seq<Seq<char>>, name: Seq<char>, k: int) -> Option<Seq<char>>
    decreases lines.len() - k,
{
    if k < 0 || k >= lines.len() {
        None
    } else {
        let w = words(lines[k]);
        if w.len() >= 2 && w[1] == name {
            Some(w[0])
        } else {
            checksum_from(lines, name, k + 1)
        }
    }
}

/// Looks a file's checksum up in a `SHASUMS256.txt` style listing, where
/// each line holds a hash and a file name.
pub fn find_checksum(listing: &str, file_name: &str) -> (r: Option<String>)
    ensures
        match checksum_from(lines_of(listing@), file_name@, 0) {
            Some(h) => r matches Some(s) && s@ == h,
            None => r is None,
        },
{
    let lines = split_lines(listing);
    let ghost ls = lines_of(listing@);
    let name = String::from_str(file_name);
    let mut k: usize = 0;
    while k < lines.len()
        invariant
            k <= lines@.len(),
            lines@.map_values(|l: String| l@) == ls,
            ls == lines_of(listing@),
            name@ == file_name@,
            checksum_from(ls, file_name@, 0) == checksum_from(ls, file_name@, k as int),
        decreases lines@.len() - k,
    {
        assert(ls[k as int] == lines@[k as int]@);
        let w = split_words(lines[k].as_str());
        assert(w@.map_values(|x: String| x@).len() == words(ls[k as int]).len());
        if w.len() >= 2 {
            assert(w@[1]@ == words(ls[k as int])[1]);
            if w[1] == name {
                assert(w@[0]@ == words(ls[k as int])[0]);
                let found = w[0].clone();
                assert(found@ == words(ls[k as int])[0]);
                return Some(found);
            }
        }
        k = k + 1;
    }
    None
}

} // verus!
