//! The build fingerprint inside an executable: where its records are, what it
//! is, and what an image looks like with it written in.
use vstd::prelude::*;
use vstd::string::StringExecFns;
use sha2::{Digest, Sha256};
use std::io::Read;

verus! {

/// `NEOMACS-FP-START`, which opens a record.
pub open spec fn magic_start() -> Seq<u8> {
    seq![78u8, 69, 79, 77, 65, 67, 83, 45, 70, 80, 45, 83, 84, 65, 82, 84]
}

/// `NEOMACS-FP-END!!`, which closes a record.
pub open spec fn magic_end() -> Seq<u8> {
    seq![78u8, 69, 79, 77, 65, 67, 83, 45, 70, 80, 45, 69, 78, 68, 33, 33]
}

/// `NEOMACS_PDUMP_FINGERPRINT_SLOT!!`, which stands in a slot before a
/// fingerprint is known.
pub open spec fn placeholder() -> Seq<u8> {
    seq![
        78u8, 69, 79, 77, 65, 67, 83, 95, 80, 68, 85, 77, 80, 95, 70, 73, 78, 71, 69, 82, 80, 82,
        73, 78, 84, 95, 83, 76, 79, 84, 33, 33,
    ]
}

pub fn fingerprint_magic_start() -> (r: Vec<u8>)
    ensures
        r@ == magic_start(),
{
    let v: Vec<u8> = vec![78u8, 69, 79, 77, 65, 67, 83, 45, 70, 80, 45, 83, 84, 65, 82, 84];
    proof {
        assert(v@ =~= magic_start());
    }
    v
}

pub fn fingerprint_magic_end() -> (r: Vec<u8>)
    ensures
        r@ == magic_end(),
{
    let v: Vec<u8> = vec![78u8, 69, 79, 77, 65, 67, 83, 45, 70, 80, 45, 69, 78, 68, 33, 33];
    proof {
        assert(v@ =~= magic_end());
    }
    v
}

pub fn fingerprint_placeholder() -> (r: Vec<u8>)
    ensures
        r@ == placeholder(),
{
    let v: Vec<u8> = vec![
        78u8, 69, 79, 77, 65, 67, 83, 95, 80, 68, 85, 77, 80, 95, 70, 73, 78, 71, 69, 82, 80, 82,
        73, 78, 84, 95, 83, 76, 79, 84, 33, 33,
    ];
    proof {
        assert(v@ =~= placeholder());
    }
    v
}

/// The bytes of `needle` stand in `b` at `i`.
pub open spec fn bytes_at(b: Seq<u8>, needle: Seq<u8>, i: int) -> bool {
    &&& 0 <= i
    &&& i + needle.len() <= b.len()
    &&& forall|k: int| 0 <= k < needle.len() ==> b[i + k] == #[trigger] needle[k]
}

fn has_bytes_at(b: &[u8], needle: &[u8], i: usize) -> (r: bool)
    ensures
        r == bytes_at(b@, needle@, i as int),
{
    if i > b.len() || needle.len() > b.len() - i {
        return false;
    }
    let mut k: usize = 0;
    while k < needle.len()
        invariant
            k <= needle.len(),
            i + needle.len() <= b.len(),
            forall|m: int| 0 <= m < k ==> b@[i + m] == #[trigger] needle@[m],
        decreases needle.len() - k,
    {
        if b[i + k] != needle[k] {
            proof {
                assert(b@[i + k] != needle@[k as int]);
            }
            return false;
        }
        k += 1;
    }
    true
}

/// The first place where `needle` stands; an empty one stands at the start.
pub fn find_bytes(haystack: &[u8], needle: &[u8]) -> (r: Option<usize>)
    ensures
        match r {
            Some(i) => bytes_at(haystack@, needle@, i as int) && forall|j: int|
                0 <= j < i ==> !bytes_at(haystack@, needle@, j),
            None => forall|j: int| 0 <= j ==> !bytes_at(haystack@, needle@, j),
        },
{
    let mut i: usize = 0;
    while i <= haystack.len()
        invariant
            i <= haystack.len() + 1,
            forall|j: int| 0 <= j < i ==> !bytes_at(haystack@, needle@, j),
        decreases haystack.len() + 1 - i,
    {
        if has_bytes_at(haystack, needle, i) {
            return Some(i);
        }
        if i == haystack.len() {
            return None;
        }
        i += 1;
    }
    None
}

/// The length of a record: two marks and a slot between them.
pub const FINGERPRINT_RECORD_LEN: usize = 64;

/// A whole record starts at `i`.
pub open spec fn record_at(b: Seq<u8>, i: int) -> bool {
    bytes_at(b, magic_start(), i) && bytes_at(b, magic_end(), i + 48)
}

/// The slots of the records at or after `from`; the bytes of a record start no other.
pub open spec fn slots_from(b: Seq<u8>, from: int) -> Seq<int>
    decreases b.len() - from,
{
    if from < 0 || from >= b.len() {
        Seq::empty()
    } else if record_at(b, from) {
        seq![from + 16] + slots_from(b, from + FINGERPRINT_RECORD_LEN)
    } else {
        slots_from(b, from + 1)
    }
}

pub open spec fn slots(b: Seq<u8>) -> Seq<int> {
    slots_from(b, 0)
}

pub open spec fn as_ints(v: Seq<usize>) -> Seq<int> {
    v.map_values(|n: usize| n as int)
}

proof fn lemma_slots_bounds(b: Seq<u8>, from: int)
    requires
        0 <= from,
    ensures
        forall|k: int|
            0 <= k < slots_from(b, from).len() ==> from + 16 <= #[trigger] slots_from(b, from)[k]
                && slots_from(b, from)[k] + 48 <= b.len(),
        forall|k: int, m: int|
            0 <= k < m < slots_from(b, from).len() ==> #[trigger] slots_from(b, from)[k] + 64
                <= #[trigger] slots_from(b, from)[m],
    decreases b.len() - from,
{
    if from < b.len() {
        if record_at(b, from) {
            lemma_slots_bounds(b, from + 64);
            let t = slots_from(b, from + 64);
            let s = slots_from(b, from);
            assert(s =~= seq![from + 16] + t);
            assert forall|k: int| 0 <= k < s.len() implies from + 16 <= #[trigger] s[k] && s[k] + 48
                <= b.len() by {
                if k > 0 {
                    assert(s[k] == t[k - 1]);
                }
            }
            assert forall|k: int, m: int| 0 <= k < m < s.len() implies #[trigger] s[k] + 64
                <= #[trigger] s[m] by {
                assert(s[m] == t[m - 1]);
                if k > 0 {
                    assert(s[k] == t[k - 1]);
                }
            }
        } else {
            lemma_slots_bounds(b, from + 1);
            let t = slots_from(b, from + 1);
            let s = slots_from(b, from);
            assert(s == t);
            assert forall|k: int| 0 <= k < s.len() implies from + 16 <= #[trigger] s[k] && s[k] + 48
                <= b.len() by {
                assert(s[k] == t[k]);
            }
        }
    }
}

/// Where the slots of the records in `bytes` start.
pub fn executable_fingerprint_slots(bytes: &[u8]) -> (r: Vec<usize>)
    ensures
        as_ints(r@) == slots(bytes@),
{
    let start_mark: Vec<u8> = fingerprint_magic_start();
    let end_mark: Vec<u8> = fingerprint_magic_end();
    let mut found: Vec<usize> = Vec::new();
    let mut at: usize = 0;
    proof {
        assert(as_ints(found@) + slots_from(bytes@, 0) =~= slots_from(bytes@, 0));
    }
    while at < bytes.len()
        invariant
            at <= bytes.len(),
            start_mark@ == magic_start(),
            end_mark@ == magic_end(),
            as_ints(found@) + slots_from(bytes@, at as int) == slots(bytes@),
        decreases bytes.len() - at,
    {
        let ghost before = as_ints(found@);
        if has_bytes_at(bytes, start_mark.as_slice(), at) && bytes.len() - at >= 64
            && has_bytes_at(bytes, end_mark.as_slice(), at + 48) {
            found.push(at + 16);
            proof {
                assert(as_ints(found@) =~= before.push(at + 16));
                assert(before.push(at + 16) + slots_from(bytes@, at + 64) =~= before + (seq![
                    at + 16,
                ] + slots_from(bytes@, at + 64)));
            }
            at += 64;
        } else {
            at += 1;
        }
    }
    proof {
        assert(slots_from(bytes@, at as int) =~= Seq::empty());
        assert(as_ints(found@) + Seq::<int>::empty() =~= as_ints(found@));
    }
    found
}

/// `b` with the bytes of `value` written at each of `at`.
pub open spec fn written(b: Seq<u8>, at: Seq<int>, value: Seq<u8>) -> Seq<u8> {
    Seq::new(
        b.len(),
        |i: int|
            if exists|k: int| 0 <= k < at.len() && #[trigger] at[k] <= i < at[k] + value.len() {
                let k = choose|k: int|
                    0 <= k < at.len() && #[trigger] at[k] <= i < at[k] + value.len();
                value[i - at[k]]
            } else {
                b[i]
            },
    )
}

/// The slots are in the image and do not touch.
pub open spec fn slots_fit(len: int, at: Seq<int>) -> bool {
    &&& forall|k: int| 0 <= k < at.len() ==> 0 <= #[trigger] at[k] && at[k] + 32 <= len
    &&& forall|k: int, m: int|
        0 <= k < m < at.len() ==> #[trigger] at[k] + 64 <= #[trigger] at[m]
}

/// Writes the fingerprint into the slots of an image.
pub fn patch_executable_fingerprint_slots(
    image: &mut Vec<u8>,
    slot_starts: &Vec<usize>,
    fingerprint: &Vec<u8>,
)
    requires
        fingerprint@.len() == 32,
        slots_fit(old(image)@.len() as int, as_ints(slot_starts@)),
    ensures
        final(image)@ == written(old(image)@, as_ints(slot_starts@), fingerprint@),
{
    let ghost start = image@;
    let ghost at = as_ints(slot_starts@);
    let mut k: usize = 0;
    proof {
        assert(image@ =~= written(start, at.subrange(0, 0), fingerprint@));
    }
    while k < slot_starts.len()
        invariant
            k <= slot_starts.len(),
            fingerprint@.len() == 32,
            at == as_ints(slot_starts@),
            slots_fit(start.len() as int, at),
            image@ == written(start, at.subrange(0, k as int), fingerprint@),
        decreases slot_starts.len() - k,
    {
        let slot: usize = slot_starts[k];
        let ghost before = image@;
        let mut j: usize = 0;
        proof {
            assert(at[k as int] == slot);
        }
        while j < 32
            invariant
                j <= 32,
                fingerprint@.len() == 32,
                slot + 32 <= image.len() == before.len(),
                forall|i: int|
                    0 <= i < before.len() ==> #[trigger] image@[i] == if slot <= i < slot + j {
                        fingerprint@[i - slot]
                    } else {
                        before[i]
                    },
            decreases 32 - j,
        {
            image.set(slot + j, fingerprint[j]);
            j += 1;
        }
        proof {
            let done = at.subrange(0, k as int);
            let next = at.subrange(0, k + 1);
            let goal = written(start, next, fingerprint@);
            assert forall|i: int| 0 <= i < start.len() implies image@[i] == goal[i] by {
                if slot <= i < slot + 32 {
                    assert(next[k as int] == slot);
                    let w = choose|w: int| 0 <= w < next.len() && #[trigger] next[w] <= i < next[w] + 32;
                    assert(next[w] == at[w]);
                    if w < k {
                        assert(at[w] + 64 <= at[k as int]);
                    }
                    assert(w == k);
                } else {
                    assert(image@[i] == before[i]);
                    if exists|w: int|
                        0 <= w < done.len() && #[trigger] done[w] <= i < done[w] + 32 {
                        let w = choose|w: int|
                            0 <= w < done.len() && #[trigger] done[w] <= i < done[w] + 32;
                        assert(next[w] == done[w]);
                        let x = choose|x: int|
                            0 <= x < next.len() && #[trigger] next[x] <= i < next[x] + 32;
                        assert(x < k);
                        assert(done[x] == next[x]);
                        assert(at[w] == done[w] && at[x] == done[x]);
                        if w < x {
                            assert(at[w] + 64 <= at[x]);
                        }
                        if x < w {
                            assert(at[x] + 64 <= at[w]);
                        }
                    } else if exists|x: int|
                        0 <= x < next.len() && #[trigger] next[x] <= i < next[x] + 32 {
                        let x = choose|x: int|
                            0 <= x < next.len() && #[trigger] next[x] <= i < next[x] + 32;
                        if x < k {
                            assert(done[x] == next[x]);
                        } else {
                            assert(next[x] == slot);
                        }
                    }
                }
            }
            assert(image@ =~= goal);
        }
        k += 1;
    }
    proof {
        assert(at.subrange(0, at.len() as int) =~= at);
    }
}

/// An image whose slots hold the placeholder, and where they are.
#[derive(Debug)]
pub struct ExecutableFingerprintImage {
    pub normalized: Vec<u8>,
    pub slots: Vec<usize>,
}

/// The image as it was before any fingerprint was written.
pub open spec fn normalized(b: Seq<u8>) -> Seq<u8> {
    written(b, slots(b), placeholder())
}

/// Reads an image; `None` where it has no record.
pub fn load_executable_fingerprint_image(bytes: &Vec<u8>) -> (r: Option<ExecutableFingerprintImage>)
    ensures
        match r {
            None => slots(bytes@).len() == 0,
            Some(image) => {
                &&& slots(bytes@).len() > 0
                &&& as_ints(image.slots@) == slots(bytes@)
                &&& image.normalized@ == normalized(bytes@)
            },
        },
{
    let found: Vec<usize> = executable_fingerprint_slots(bytes.as_slice());
    proof {
        assert(as_ints(found@).len() == found@.len());
    }
    if found.len() == 0 {
        return None;
    }
    let mut image: Vec<u8> = bytes.clone();
    proof {
        assert(image@ =~= bytes@);
        lemma_slots_bounds(bytes@, 0);
    }
    patch_executable_fingerprint_slots(&mut image, &found, &fingerprint_placeholder());
    Some(ExecutableFingerprintImage { normalized: image, slots: found })
}

/// What SHA-256 makes of the bytes.
pub uninterp spec fn sha256(data: Seq<u8>) -> Seq<u8>;

/// `sha2::Sha256::digest`: the hash depends on the bytes alone and is 32 bytes long.
#[verifier::external_body]
fn sha256_digest(data: &[u8]) -> (r: Vec<u8>)
    ensures
        r@ == sha256(data@),
        r@.len() == 32,
{
    Sha256::digest(data).to_vec()
}

/// The fingerprint of an image: the hash of what it was before one was written.
pub fn executable_fingerprint_from_image(image: &ExecutableFingerprintImage) -> (r: Vec<u8>)
    ensures
        r@ == sha256(image.normalized@),
        r@.len() == 32,
{
    sha256_digest(image.normalized.as_slice())
}

/// The fingerprint of the image in `bytes`; `None` where it has no record.
pub fn executable_fingerprint(bytes: &Vec<u8>) -> (r: Option<Vec<u8>>)
    ensures
        match r {
            None => slots(bytes@).len() == 0,
            Some(f) => slots(bytes@).len() > 0 && f@ == sha256(normalized(bytes@)) && f@.len()
                == 32,
        },
{
    match load_executable_fingerprint_image(bytes) {
        None => None,
        Some(image) => Some(executable_fingerprint_from_image(&image)),
    }
}

/// `bytes` with `fingerprint` in every slot; `None` where it has no record.
pub fn patch_executable_fingerprint(bytes: &Vec<u8>, fingerprint: &Vec<u8>) -> (r: Option<Vec<u8>>)
    requires
        fingerprint@.len() == 32,
    ensures
        match r {
            None => slots(bytes@).len() == 0,
            Some(p) => slots(bytes@).len() > 0 && p@ == written(
                bytes@,
                slots(bytes@),
                fingerprint@,
            ),
        },
{
    let found: Vec<usize> = executable_fingerprint_slots(bytes.as_slice());
    proof {
        assert(as_ints(found@).len() == found@.len());
    }
    if found.len() == 0 {
        return None;
    }
    let mut image: Vec<u8> = bytes.clone();
    proof {
        assert(image@ =~= bytes@);
        lemma_slots_bounds(bytes@, 0);
    }
    patch_executable_fingerprint_slots(&mut image, &found, fingerprint);
    Some(image)
}

/// Writing again over the same slots leaves only what was written last.
pub proof fn law_last_write_wins(b: Seq<u8>, at: Seq<int>, first: Seq<u8>, second: Seq<u8>)
    requires
        first.len() == second.len(),
    ensures
        written(written(b, at, first), at, second) == written(b, at, second),
{
    assert(written(written(b, at, first), at, second) =~= written(b, at, second));
}

/// From `from` on, every start mark outside the records found belongs to a record.
pub open spec fn no_stray_mark(b: Seq<u8>, from: int) -> bool
    decreases b.len() - from,
{
    if from < 0 || from >= b.len() {
        true
    } else if record_at(b, from) {
        no_stray_mark(b, from + 64)
    } else {
        !bytes_at(b, magic_start(), from) && no_stray_mark(b, from + 1)
    }
}

/// Bytes that no slot covers are not written.
proof fn lemma_written_outside(b: Seq<u8>, at: Seq<int>, value: Seq<u8>, i: int)
    requires
        0 <= i < b.len(),
        forall|k: int| 0 <= k < at.len() ==> !(#[trigger] at[k] <= i < at[k] + value.len()),
    ensures
        written(b, at, value)[i] == b[i],
{
}

proof fn lemma_slots_kept(b: Seq<u8>, value: Seq<u8>, from: int)
    requires
        value.len() == 32,
        0 <= from,
        no_stray_mark(b, from),
        exists|n: int|
            0 <= n <= slots(b).len() && slots_from(b, from) == slots(b).subrange(
                n,
                slots(b).len() as int,
            ) && forall|k: int| 0 <= k < n ==> #[trigger] slots(b)[k] + 48 <= from,
    ensures
        slots_from(written(b, slots(b), value), from) == slots_from(b, from),
    decreases b.len() - from,
{
    let w = written(b, slots(b), value);
    let all = slots(b);
    let n = choose|n: int|
        0 <= n <= all.len() && slots_from(b, from) == all.subrange(n, all.len() as int) && forall|
            k: int,
        |
            0 <= k < n ==> #[trigger] all[k] + 48 <= from;
    lemma_slots_bounds(b, 0);
    lemma_slots_bounds(b, from);
    let here = slots_from(b, from);
    if from < b.len() {
        assert forall|i: int| from <= i < from + 16 && i < b.len() implies #[trigger] w[i]
            == b[i] by {
            assert forall|k: int| 0 <= k < all.len() implies !(#[trigger] all[k] <= i < all[k]
                + value.len()) by {
                if k >= n {
                    assert(here[k - n] == all[k]);
                }
            }
            lemma_written_outside(b, all, value, i);
        }
        assert(bytes_at(w, magic_start(), from) == bytes_at(b, magic_start(), from));
        if record_at(b, from) {
            assert(here[0] == from + 16);
            assert(all[n] == from + 16);
            assert forall|i: int| from + 48 <= i < from + 64 && i < b.len() implies #[trigger] w[i]
                == b[i] by {
                assert forall|k: int| 0 <= k < all.len() implies !(#[trigger] all[k] <= i < all[k]
                    + value.len()) by {
                    if k > n {
                        assert(all[n] + 64 <= all[k]);
                    }
                }
                lemma_written_outside(b, all, value, i);
            }
            assert(record_at(w, from));
            assert(slots_from(b, from + 64) =~= all.subrange(n + 1, all.len() as int)) by {
                assert(here =~= seq![from + 16] + slots_from(b, from + 64));
                assert(here.subrange(1, here.len() as int) =~= slots_from(b, from + 64));
                assert(here.subrange(1, here.len() as int) =~= all.subrange(
                    n + 1,
                    all.len() as int,
                ));
            }
            assert forall|k: int| 0 <= k < n + 1 implies #[trigger] all[k] + 48 <= from + 64 by {}
            lemma_slots_kept(b, value, from + 64);
        } else {
            assert(!record_at(w, from));
            lemma_slots_kept(b, value, from + 1);
        }
    }
}

/// Where no start mark is left over, writing a fingerprint moves no slot.
pub proof fn law_patching_keeps_slots(b: Seq<u8>, value: Seq<u8>)
    requires
        value.len() == 32,
        no_stray_mark(b, 0),
    ensures
        slots(written(b, slots(b), value)) == slots(b),
{
    assert(slots(b) =~= slots(b).subrange(0, slots(b).len() as int));
    lemma_slots_kept(b, value, 0);
}

/// A fingerprint does not depend on the fingerprint that an image holds: writing
/// one in, where that moves no slot, leaves the image's own fingerprint as it was, and
/// writing it in again changes nothing.
pub proof fn law_fingerprint_is_stable(b: Seq<u8>, value: Seq<u8>)
    requires
        value.len() == 32,
        slots(written(b, slots(b), value)) == slots(b),
    ensures
        normalized(written(b, slots(b), value)) == normalized(b),
        sha256(normalized(written(b, slots(b), value))) == sha256(normalized(b)),
        written(written(b, slots(b), value), slots(written(b, slots(b), value)), value) == written(
            b,
            slots(b),
            value,
        ),
{
    law_last_write_wins(b, slots(b), value, placeholder());
    law_last_write_wins(b, slots(b), value, value);
}

/// One of the sixteen digits.
pub open spec fn hex_digit(n: int) -> char {
    if n < 10 {
        (48 + n) as char
    } else {
        (55 + n) as char
    }
}

/// Two digits for each byte.
pub open spec fn hex_text(b: Seq<u8>) -> Seq<char>
    decreases b.len(),
{
    if b.len() == 0 {
        Seq::empty()
    } else {
        hex_text(b.drop_last()).push(hex_digit(b.last() as int / 16)).push(
            hex_digit(b.last() as int % 16),
        )
    }
}

fn hex_char(n: u8) -> (r: char)
    requires
        n < 16,
    ensures
        r == hex_digit(n as int),
{
    if n < 10 {
        (48 + n) as char
    } else {
        (55 + n) as char
    }
}

pub fn uppercase_hex(bytes: &[u8]) -> (r: String)
    ensures
        r@ == hex_text(bytes@),
{
    let mut out: String = String::new();
    let mut i: usize = 0;
    proof {
        assert(out@ =~= hex_text(bytes@.subrange(0, 0)));
    }
    while i < bytes.len()
        invariant
            i <= bytes.len(),
            out@ == hex_text(bytes@.subrange(0, i as int)),
        decreases bytes.len() - i,
    {
        let b: u8 = bytes[i];
        proof {
            assert(bytes@.subrange(0, i + 1).drop_last() =~= bytes@.subrange(0, i as int));
            assert(bytes@.subrange(0, i + 1).last() == b);
        }
        out.push(hex_char(b / 16));
        out.push(hex_char(b % 16));
        i += 1;
    }
    proof {
        assert(bytes@.subrange(0, bytes@.len() as int) =~= bytes@);
    }
    out
}

/// The error of a read.
#[verifier::external_type_specification]
#[verifier::external_body]
pub struct ExIoError(std::io::Error);

/// What a gzip stream holds; `None` where it is no whole gzip stream.
pub uninterp spec fn gunzipped(data: Seq<u8>) -> Option<Seq<u8>>;

/// `flate2::read::GzDecoder` read to its end: what it yields, or that it fails,
/// depends on the bytes alone.
#[verifier::external_body]
fn gunzip(data: &[u8]) -> (r: Result<Vec<u8>, std::io::Error>)
    ensures
        match r {
            Ok(v) => gunzipped(data@) == Some(v@),
            Err(_) => gunzipped(data@) is None,
        },
{
    let mut decoded: Vec<u8> = Vec::new();
    flate2::read::GzDecoder::new(data).read_to_end(&mut decoded)?;
    Ok(decoded)
}

/// Why a compressed character map could not be read.
#[derive(Debug, Clone, Copy, PartialEq, Eq, Structural)]
pub enum GzipError {
    NotGzip,
}

/// What `result` of a decompression means for the map that was asked for.
pub fn gzip_outcome(result: Result<Vec<u8>, std::io::Error>) -> (r: Result<Vec<u8>, GzipError>)
    ensures
        match result {
            Ok(v) => r matches Ok(w) && w@ == v@,
            Err(_) => r matches Err(e) && e == GzipError::NotGzip,
        },
{
    match result {
        Ok(v) => Ok(v),
        Err(_) => Err(GzipError::NotGzip),
    }
}

/// The contents of a compressed character map.
pub fn read_gzip_file(compressed: &[u8]) -> (r: Result<Vec<u8>, GzipError>)
    ensures
        match gunzipped(compressed@) {
            Some(v) => r matches Ok(w) && w@ == v,
            None => r matches Err(e) && e == GzipError::NotGzip,
        },
{
    gzip_outcome(gunzip(compressed))
}

} // verus!
