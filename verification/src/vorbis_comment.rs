//! Decoder for the VORBIS_COMMENT block: a vendor string followed by a
//! length-prefixed list of `key=value` entries. Keys are case-folded to
//! ASCII uppercase at parse time and equal keys keep all their values
//! in insertion order, so the result is an ordered multimap. All
//! lengths in this layout are little-endian, unlike the rest of the
//! format; that asymmetry is a quirk of the published format.
use vstd::prelude::*;
use vstd::utf8::{decode_utf8, valid_utf8};

use crate::bits::{copy_range, le32, le32_at};
use crate::file::FlacError;

verus! {

/// A parsed VORBIS_COMMENT block.
#[derive(Clone, Debug, PartialEq, Eq)]
pub struct VorbisComment {
    /// The vendor string.
    pub vendor_string: String,
    /// The comments: one pair per distinct uppercased key, in the order
    /// the keys first appeared, each holding its values in entry order.
    pub comments: Vec<(String, Vec<String>)>,
}

/// ASCII uppercase of one byte; bytes outside `a..=z` stay as they are.
pub open spec fn upper_byte(b: u8) -> u8 {
    if 97 <= b <= 122 {
        (b - 32) as u8
    } else {
        b
    }
}

/// ASCII uppercase of a byte sequence.
pub open spec fn upper_bytes(s: Seq<u8>) -> Seq<u8> {
    s.map_values(|b: u8| upper_byte(b))
}

/// The index of the first `=` byte of the sequence, or -1 if there is
/// none.
pub open spec fn first_eq(s: Seq<u8>) -> int
    decreases s.len(),
{
    if s.len() == 0 {
        -1
    } else if s[0] == 61 {
        0
    } else {
        let r = first_eq(s.drop_first());
        if r == -1 {
            -1
        } else {
            r + 1
        }
    }
}

/// `first_eq` finds the least index holding an `=`, or reports that
/// none does.
pub proof fn lemma_first_eq(s: Seq<u8>)
    ensures
        first_eq(s) == -1 ==> forall|j: int| 0 <= j < s.len() ==> s[j] != 61,
        first_eq(s) != -1 ==> {
            let i = first_eq(s);
            &&& 0 <= i < s.len()
            &&& s[i] == 61
            &&& forall|j: int| 0 <= j < i ==> s[j] != 61
        },
    decreases s.len(),
{
    if s.len() == 0 {
    } else if s[0] == 61 {
    } else {
        let t = s.drop_first();
        lemma_first_eq(t);
        if first_eq(s) == -1 {
            assert forall|j: int| 0 <= j < s.len() implies s[j] != 61 by {
                if j > 0 {
                    assert(t[j - 1] == s[j]);
                }
            }
        } else {
            let i = first_eq(s);
            assert(t[i - 1] == s[i]);
            assert forall|j: int| 0 <= j < i implies s[j] != 61 by {
                if j > 0 {
                    assert(t[j - 1] == s[j]);
                }
            }
        }
    }
}

/// The outcome of one `key=value` entry: the entry is split on its
/// first `=`, the key is case-folded to ASCII uppercase at the byte
/// level, and both halves must be valid UTF-8. An entry with no `=` is
/// malformed; the raw tag of the VORBIS_COMMENT block type is 4.
pub open spec fn entry_outcome(entry: Seq<u8>) -> Result<(Seq<char>, Seq<char>), FlacError> {
    let i = first_eq(entry);
    if i == -1 {
        Err(FlacError::MalformedBlock(4))
    } else {
        let kb = upper_bytes(entry.subrange(0, i));
        let vb = entry.subrange(i + 1, entry.len() as int);
        if !valid_utf8(kb) {
            Err(FlacError::Utf8Error)
        } else if !valid_utf8(vb) {
            Err(FlacError::Utf8Error)
        } else {
            Ok((decode_utf8(kb), decode_utf8(vb)))
        }
    }
}

/// The index of the pair holding the given key, or -1 if no pair does.
pub open spec fn find_key(cs: Seq<(Seq<char>, Seq<Seq<char>>)>, k: Seq<char>) -> int
    decreases cs.len(),
{
    if cs.len() == 0 {
        -1
    } else if cs[0].0 == k {
        0
    } else {
        let r = find_key(cs.drop_first(), k);
        if r == -1 {
            -1
        } else {
            r + 1
        }
    }
}

/// `find_key` finds the least index holding the key, or reports that
/// none does.
pub proof fn lemma_find_key(cs: Seq<(Seq<char>, Seq<Seq<char>>)>, k: Seq<char>)
    ensures
        find_key(cs, k) == -1 ==> forall|j: int| 0 <= j < cs.len() ==> cs[j].0 != k,
        find_key(cs, k) != -1 ==> {
            let i = find_key(cs, k);
            &&& 0 <= i < cs.len()
            &&& cs[i].0 == k
            &&& forall|j: int| 0 <= j < i ==> cs[j].0 != k
        },
    decreases cs.len(),
{
    if cs.len() == 0 {
    } else if cs[0].0 == k {
    } else {
        let t = cs.drop_first();
        lemma_find_key(t, k);
        if find_key(cs, k) == -1 {
            assert forall|j: int| 0 <= j < cs.len() implies cs[j].0 != k by {
                if j > 0 {
                    assert(t[j - 1] == cs[j]);
                }
            }
        } else {
            let i = find_key(cs, k);
            assert(t[i - 1] == cs[i]);
            assert forall|j: int| 0 <= j < i implies cs[j].0 != k by {
                if j > 0 {
                    assert(t[j - 1] == cs[j]);
                }
            }
        }
    }
}

/// Appends one value under its key: to the pair already holding the
/// key, or as a new pair at the end when the key is new.
pub open spec fn group_insert(
    cs: Seq<(Seq<char>, Seq<Seq<char>>)>,
    k: Seq<char>,
    v: Seq<char>,
) -> Seq<(Seq<char>, Seq<Seq<char>>)> {
    let i = find_key(cs, k);
    if i == -1 {
        cs.push((k, seq![v]))
    } else {
        cs.update(i, (cs[i].0, cs[i].1.push(v)))
    }
}

/// Folds `n` length-prefixed entries starting at byte offset `pos`
/// into the accumulated comment pairs, stopping at the first entry
/// whose framing or content is in error.
pub open spec fn vc_entries(
    bytes: Seq<u8>,
    pos: int,
    n: nat,
    acc: Seq<(Seq<char>, Seq<Seq<char>>)>,
) -> Result<Seq<(Seq<char>, Seq<Seq<char>>)>, FlacError>
    decreases n,
{
    if n == 0 {
        Ok(acc)
    } else if pos + 4 > bytes.len() {
        Err(FlacError::OutOfBounds)
    } else {
        let l = le32(bytes, pos);
        if pos + 4 + l > bytes.len() {
            Err(FlacError::OutOfBounds)
        } else {
            let entry = bytes.subrange(pos + 4, pos + 4 + l);
            match entry_outcome(entry) {
                Err(e) => Err(e),
                Ok(kv) => vc_entries(bytes, pos + 4 + l, (n - 1) as nat, group_insert(acc, kv.0, kv.1)),
            }
        }
    }
}

/// What a VORBIS_COMMENT payload denotes: the decoded vendor string
/// and the grouped comments, or the first error the layout forces.
pub open spec fn vc_decode(bytes: Seq<u8>) -> Result<
    (Seq<char>, Seq<(Seq<char>, Seq<Seq<char>>)>),
    FlacError,
> {
    if bytes.len() < 4 {
        Err(FlacError::OutOfBounds)
    } else {
        let vl = le32(bytes, 0);
        if 4 + vl > bytes.len() {
            Err(FlacError::OutOfBounds)
        } else {
            let vb = bytes.subrange(4, 4 + vl);
            if !valid_utf8(vb) {
                Err(FlacError::Utf8Error)
            } else if 4 + vl + 4 > bytes.len() {
                Err(FlacError::OutOfBounds)
            } else {
                let n = le32(bytes, 4 + vl);
                match vc_entries(bytes, 4 + vl + 4, n as nat, Seq::empty()) {
                    Ok(cs) => Ok((decode_utf8(vb), cs)),
                    Err(e) => Err(e),
                }
            }
        }
    }
}

/// The comment pairs a vector of owned strings stands for.
pub open spec fn comments_view(cs: Seq<(String, Vec<String>)>) -> Seq<
    (Seq<char>, Seq<Seq<char>>),
> {
    cs.map_values(|p: (String, Vec<String>)| (p.0@, p.1@.map_values(|s: String| s@)))
}

/// Relies on `String::from_utf8`: it succeeds exactly on byte
/// sequences that are valid UTF-8 and returns the string they encode.
#[verifier::external_body]
fn utf8_to_string(v: Vec<u8>) -> (r: Option<String>)
    ensures
        r matches Some(s) ==> valid_utf8(v@) && s@ == decode_utf8(v@),
        r is None ==> !valid_utf8(v@),
{
    String::from_utf8(v).ok()
}

/// Case-folds a byte slice to ASCII uppercase.
fn ascii_upper(bytes: &[u8]) -> (r: Vec<u8>)
    ensures
        r@ == upper_bytes(bytes@),
{
    let n = bytes.len();
    let mut out: Vec<u8> = Vec::new();
    let mut i: usize = 0;
    while i < n
        invariant
            i <= n,
            n == bytes@.len(),
            out@ == upper_bytes(bytes@.subrange(0, i as int)),
        decreases n - i,
    {
        let b = bytes[i];
        let u: u8 = if 97 <= b && b <= 122 {
            b - 32
        } else {
            b
        };
        out.push(u);
        i = i + 1;
        proof {
            assert(out@ =~= upper_bytes(bytes@.subrange(0, i as int)));
        }
    }
    proof {
        assert(bytes@.subrange(0, n as int) =~= bytes@);
    }
    out
}

/// Finds the first `=` byte of an entry.
fn find_eq_byte(entry: &[u8]) -> (r: Option<usize>)
    ensures
        match r {
            Some(i) => i == first_eq(entry@) && i < entry@.len(),
            None => first_eq(entry@) == -1,
        },
{
    let n = entry.len();
    let mut i: usize = 0;
    while i < n
        invariant
            i <= n,
            n == entry@.len(),
            forall|j: int| 0 <= j < i ==> entry@[j] != 61,
        decreases n - i,
    {
        if entry[i] == 61 {
            proof {
                lemma_first_eq(entry@);
            }
            return Some(i);
        }
        i = i + 1;
    }
    proof {
        lemma_first_eq(entry@);
    }
    None
}

/// Appends one value under its key, keeping the order in which keys
/// first appeared and the order of values within a key.
fn insert_comment(comments: &mut Vec<(String, Vec<String>)>, key: String, value: String)
    ensures
        comments_view(final(comments)@) == group_insert(comments_view(old(comments)@), key@, value@),
{
    let n = comments.len();
    let mut i: usize = 0;
    while i < n
        invariant
            i <= n,
            n == comments@.len(),
            comments@ == old(comments)@,
            forall|j: int| 0 <= j < i ==> comments@[j].0@ != key@,
        decreases n - i,
    {
        if comments[i].0 == key {
            let ghost oldc = comments@;
            let ghost cv = comments_view(comments@);
            proof {
                lemma_find_key(cv, key@);
                assert(cv[i as int].0 == key@);
                assert(find_key(cv, key@) == i);
            }
            let mut pair = comments.remove(i);
            pair.1.push(value);
            let ghost pair_v = pair;
            comments.insert(i, pair);
            proof {
                assert(comments@ =~= oldc.update(i as int, pair_v));
                assert forall|j: int| 0 <= j < comments_view(comments@).len() implies comments_view(
                    comments@,
                )[j] == group_insert(cv, key@, value@)[j] by {
                    if j == i {
                        assert(pair_v.1@.map_values(|s: String| s@) =~= cv[j].1.push(value@));
                    }
                }
                assert(comments_view(comments@) =~= group_insert(cv, key@, value@));
            }
            return ;
        }
        i = i + 1;
    }
    let ghost cv = comments_view(comments@);
    proof {
        lemma_find_key(cv, key@);
        assert(find_key(cv, key@) == -1);
    }
    let values: Vec<String> = vec![value];
    proof {
        assert(values@.map_values(|s: String| s@) =~= seq![value@]);
    }
    comments.push((key, values));
    proof {
        assert(comments_view(comments@) =~= group_insert(cv, key@, value@));
    }
}

impl VorbisComment {
    /// Returns a VorbisComment with an empty vendor string and no
    /// comments.
    pub fn new() -> (r: VorbisComment)
        ensures
            r.vendor_string@ == Seq::<char>::empty(),
            r.comments@ == Seq::<(String, Vec<String>)>::empty(),
    {
        VorbisComment { vendor_string: String::new(), comments: Vec::new() }
    }

    /// Parses the bytes as a VORBIS_COMMENT payload: exactly the
    /// vendor string and grouped comments the layout denotes, or the
    /// first error it forces.
    pub fn from_bytes(bytes: &[u8]) -> (r: Result<VorbisComment, FlacError>)
        ensures
            match r {
                Ok(vc) => vc_decode(bytes@) matches Ok(m) && vc.vendor_string@ == m.0
                    && comments_view(vc.comments@) == m.1,
                Err(e) => vc_decode(bytes@) matches Err(e2) && e == e2,
            },
    {
        let n = bytes.len();
        if n < 4 {
            return Err(FlacError::OutOfBounds);
        }
        let vl = le32_at(bytes, 0) as usize;
        if vl > n - 4 {
            return Err(FlacError::OutOfBounds);
        }
        let vendor_bytes = copy_range(bytes, 4, vl);
        let vendor_string = match utf8_to_string(vendor_bytes) {
            Some(s) => s,
            None => {
                return Err(FlacError::Utf8Error);
            },
        };
        let mut pos: usize = 4 + vl;
        if n - pos < 4 {
            return Err(FlacError::OutOfBounds);
        }
        let num = le32_at(bytes, pos);
        pos = pos + 4;
        let mut comments: Vec<(String, Vec<String>)> = Vec::new();
        let mut i: u32 = 0;
        proof {
            assert(comments_view(comments@) =~= Seq::<(Seq<char>, Seq<Seq<char>>)>::empty());
        }
        while i < num
            invariant
                n == bytes@.len(),
                pos <= n,
                i <= num,
                valid_utf8(bytes@.subrange(4, 4 + le32(bytes@, 0))),
                vendor_string@ == decode_utf8(bytes@.subrange(4, 4 + le32(bytes@, 0))),
                vc_decode(bytes@) == (match vc_entries(
                    bytes@,
                    pos as int,
                    (num - i) as nat,
                    comments_view(comments@),
                ) {
                    Ok(cs) => Ok::<(Seq<char>, Seq<(Seq<char>, Seq<Seq<char>>)>), FlacError>(
                        (vendor_string@, cs),
                    ),
                    Err(e) => Err::<(Seq<char>, Seq<(Seq<char>, Seq<Seq<char>>)>), FlacError>(e),
                }),
            decreases num - i,
        {
            if n - pos < 4 {
                return Err(FlacError::OutOfBounds);
            }
            let el = le32_at(bytes, pos) as usize;
            if el > n - (pos + 4) {
                return Err(FlacError::OutOfBounds);
            }
            let entry = copy_range(bytes, pos + 4, el);
            let eqi = match find_eq_byte(entry.as_slice()) {
                Some(j) => j,
                None => {
                    return Err(FlacError::MalformedBlock(4));
                },
            };
            let key_part = vstd::slice::slice_subrange(entry.as_slice(), 0, eqi);
            let ukey = ascii_upper(key_part);
            proof {
                assert(ukey@ == upper_bytes(entry@.subrange(0, eqi as int)));
            }
            let value_bytes = copy_range(entry.as_slice(), eqi + 1, el - (eqi + 1));
            proof {
                assert(value_bytes@ =~= entry@.subrange(eqi + 1, entry@.len() as int));
            }
            let key = match utf8_to_string(ukey) {
                Some(s) => s,
                None => {
                    return Err(FlacError::Utf8Error);
                },
            };
            let value = match utf8_to_string(value_bytes) {
                Some(s) => s,
                None => {
                    return Err(FlacError::Utf8Error);
                },
            };
            proof {
                assert(entry_outcome(entry@) == Ok::<(Seq<char>, Seq<char>), FlacError>(
                    (key@, value@),
                ));
            }
            insert_comment(&mut comments, key, value);
            pos = pos + 4 + el;
            i = i + 1;
        }
        Ok(VorbisComment { vendor_string, comments })
    }
}

} // verus!
