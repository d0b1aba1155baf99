//! What a fingerprint in an executable is for: it is written where there is room for it, and
//! it does not depend on what was written there.
use vstd::prelude::*;

use crate::fingerprint;
use crate::fingerprint::ExecutableFingerprintImage;

verus! {

/// Some bytes are what another run of bytes is, from a place on.
pub open spec fn stand_at(b: Seq<u8>, part: Seq<u8>, i: int) -> bool {
    0 <= i && i + part.len() <= b.len() && b.subrange(i, i + part.len()) == part
}

proof fn lemma_stand_at(b: Seq<u8>, part: Seq<u8>, i: int)
    ensures
        stand_at(b, part, i) == fingerprint::bytes_at(b, part, i),
{
    if fingerprint::bytes_at(b, part, i) {
        assert(b.subrange(i, i + part.len()) =~= part);
    }
    if stand_at(b, part, i) {
        assert forall|k: int| 0 <= k < part.len() implies b[i + k] == #[trigger] part[k] by {
            assert(b.subrange(i, i + part.len())[k] == b[i + k]);
        }
    }
}

/// Bytes are found at the first place where they stand.
pub proof fn law_first_place(haystack: &[u8], needle: &[u8], r: Option<usize>)
    requires
        call_ensures(fingerprint::find_bytes, (haystack, needle), r),
    ensures
        r is Some ==> stand_at(haystack@, needle@, r->0 as int) && forall|j: int|
            0 <= j < r->0 ==> !stand_at(haystack@, needle@, j),
{
    assert forall|j: int| stand_at(haystack@, needle@, j) == fingerprint::bytes_at(
        haystack@,
        needle@,
        j,
    ) by {
        lemma_stand_at(haystack@, needle@, j);
    }
}

/// Room for a fingerprint: thirty-two bytes between two marks of sixteen.
pub open spec fn is_room(b: Seq<u8>, begin: Seq<u8>, end: Seq<u8>, at: int) -> bool {
    stand_at(b, begin, at - 16) && stand_at(b, end, at + 32)
}

proof fn lemma_slots(b: Seq<u8>, from: int)
    requires
        from >= 0,
    ensures
        ({
            let s = fingerprint::slots_from(b, from);
            &&& forall|k: int|
                0 <= k < s.len() ==> #[trigger] s[k] >= from + 16 && fingerprint::record_at(
                    b,
                    s[k] - 16,
                )
            &&& forall|k: int, m: int| 0 <= k < m < s.len() ==> #[trigger] s[k] + 64 <= #[trigger] s[m]
            &&& s.len() == 0 ==> forall|i: int| i >= from ==> !fingerprint::record_at(b, i)
            &&& forall|i: int| #[trigger]
                fingerprint::record_at(b, i) && i >= from ==> exists|k: int|
                    0 <= k < s.len() && #[trigger] s[k] - 16 <= i < s[k] + 48
        }),
    decreases b.len() - from,
{
    let s = fingerprint::slots_from(b, from);
    if from >= b.len() {
        assert forall|i: int| i >= from implies !fingerprint::record_at(b, i) by {
            assert(fingerprint::magic_start().len() == 16);
        }
    } else if fingerprint::record_at(b, from) {
        lemma_slots(b, from + 64);
        let t = fingerprint::slots_from(b, from + 64);
        assert(s == seq![from + 16] + t);
        assert forall|k: int| 0 <= k < s.len() implies #[trigger] s[k] >= from + 16
            && fingerprint::record_at(b, s[k] - 16) by {
            if k > 0 {
                assert(s[k] == t[k - 1]);
            }
        }
        assert forall|k: int, m: int| 0 <= k < m < s.len() implies #[trigger] s[k] + 64
            <= #[trigger] s[m] by {
            assert(s[m] == t[m - 1]);
            if k > 0 {
                assert(s[k] == t[k - 1]);
            }
        }
        assert forall|i: int| #[trigger] fingerprint::record_at(b, i) && i >= from implies exists|
            k: int,
        | 0 <= k < s.len() && #[trigger] s[k] - 16 <= i < s[k] + 48 by {
            if i < from + 64 {
                assert(s[0] - 16 <= i < s[0] + 48);
            } else {
                let k = choose|k: int|
                    0 <= k < t.len() && #[trigger] t[k] - 16 <= i < t[k] + 48;
                assert(s[k + 1] == t[k]);
            }
        }
    } else {
        lemma_slots(b, from + 1);
        let t = fingerprint::slots_from(b, from + 1);
        assert(s == t);
        assert forall|i: int| #[trigger] fingerprint::record_at(b, i) && i >= from implies exists|
            k: int,
        | 0 <= k < s.len() && #[trigger] s[k] - 16 <= i < s[k] + 48 by {
            assert(i != from);
            let k = choose|k: int| 0 <= k < t.len() && #[trigger] t[k] - 16 <= i < t[k] + 48;
            assert(s[k] - 16 <= i < s[k] + 48);
        }
        if s.len() == 0 {
            assert forall|i: int| i >= from implies !fingerprint::record_at(b, i) by {
                if i == from {
                } else {
                    assert(!fingerprint::record_at(b, i));
                }
            }
        }
    }
}

/// Where there is room: each place is between the two marks, they come in order and do not
/// touch, and none is passed over that does not overlap one that was found.
pub proof fn law_rooms_are_found(
    bytes: &[u8],
    r: Vec<usize>,
    begin: Vec<u8>,
    end: Vec<u8>,
)
    requires
        call_ensures(fingerprint::executable_fingerprint_slots, (bytes,), r),
        call_ensures(fingerprint::fingerprint_magic_start, (), begin),
        call_ensures(fingerprint::fingerprint_magic_end, (), end),
    ensures
        begin@.len() == 16 && end@.len() == 16 && begin@ != end@,
        forall|k: int| 0 <= k < r@.len() ==> is_room(bytes@, begin@, end@, #[trigger] r@[k] as int),
        forall|k: int, m: int|
            0 <= k < m < r@.len() ==> #[trigger] r@[k] + 64 <= #[trigger] r@[m],
        forall|i: int| #[trigger]
            is_room(bytes@, begin@, end@, i) ==> exists|k: int|
                0 <= k < r@.len() && #[trigger] r@[k] <= i < r@[k] + 64,
{
    let b = bytes@;
    let s = fingerprint::slots(b);
    lemma_slots(b, 0);
    assert(begin@[8] != end@[11] || begin@[11] != end@[11]) by {
        assert(begin@[11] == 83u8);
        assert(end@[11] == 69u8);
    }
    assert(s.len() == r@.len());
    assert forall|k: int| 0 <= k < r@.len() implies is_room(
        b,
        begin@,
        end@,
        #[trigger] r@[k] as int,
    ) by {
        assert(s[k] == r@[k]);
        lemma_stand_at(b, begin@, s[k] - 16);
        lemma_stand_at(b, end@, s[k] + 32);
    }
    assert forall|k: int, m: int| 0 <= k < m < r@.len() implies #[trigger] r@[k] + 64
        <= #[trigger] r@[m] by {
        assert(s[k] == r@[k] && s[m] == r@[m]);
    }
    assert forall|i: int| #[trigger] is_room(b, begin@, end@, i) implies exists|k: int|
        0 <= k < r@.len() && #[trigger] r@[k] <= i < r@[k] + 64 by {
        lemma_stand_at(b, begin@, i - 16);
        lemma_stand_at(b, end@, i + 32);
        assert(fingerprint::record_at(b, i - 16));
        let k = choose|k: int| 0 <= k < s.len() && #[trigger] s[k] - 16 <= i - 16 < s[k] + 48;
        assert(r@[k] <= i < r@[k] + 64);
    }
}

/// Patching writes the fingerprint into every room, and nothing else: what is outside of
/// them stays, and so does the length. Without a room there is nothing to patch.
pub proof fn law_fingerprint_is_written(
    bytes: &Vec<u8>,
    value: &Vec<u8>,
    r: Option<Vec<u8>>,
    bytes_again: &[u8],
    at: Vec<usize>,
)
    requires
        call_ensures(fingerprint::patch_executable_fingerprint, (bytes, value), r),
        value@.len() == 32,
        bytes_again@ == bytes@,
        call_ensures(fingerprint::executable_fingerprint_slots, (bytes_again,), at),
    ensures
        r is None <==> at@.len() == 0,
        r is Some ==> {
            let p = (r->0)@;
            &&& p.len() == bytes@.len()
            &&& forall|k: int|
                0 <= k < at@.len() ==> p.subrange(
                    #[trigger] at@[k] as int,
                    at@[k] + 32,
                ) == value@
            &&& forall|i: int|
                0 <= i < p.len() && (forall|k: int|
                    0 <= k < at@.len() ==> !(#[trigger] at@[k] <= i < at@[k] + 32)) ==> p[i]
                    == bytes@[i]
        },
{
    let b = bytes@;
    let s = fingerprint::slots(b);
    lemma_slots(b, 0);
    assert(s.len() == at@.len());
    assert forall|k: int| 0 <= k < s.len() implies #[trigger] s[k] == at@[k] by {}
    if r is Some {
        let p = (r->0)@;
        lemma_written(b, s, value@);
        assert forall|k: int| 0 <= k < at@.len() implies p.subrange(
            #[trigger] at@[k] as int,
            at@[k] + 32,
        ) == value@ by {
            assert(s[k] == at@[k]);
            assert(fingerprint::record_at(b, s[k] - 16));
            assert(fingerprint::magic_end().len() == 16);
            assert(p.subrange(s[k], s[k] + 32) =~= value@) by {
                assert forall|j: int| 0 <= j < 32 implies p[s[k] + j] == #[trigger] value@[j] by {}
            }
        }
        assert forall|i: int|
            0 <= i < p.len() && (forall|k: int|
                0 <= k < at@.len() ==> !(#[trigger] at@[k] <= i < at@[k] + 32)) implies p[i]
            == b[i] by {
            assert forall|k: int| 0 <= k < s.len() implies !(#[trigger] s[k] <= i < s[k] + 32) by {
                assert(at@[k] == s[k]);
            }
        }
    }
}

proof fn lemma_written(b: Seq<u8>, at: Seq<int>, value: Seq<u8>)
    requires
        value.len() == 32,
        forall|k: int, m: int| 0 <= k < m < at.len() ==> #[trigger] at[k] + 64 <= #[trigger] at[m],
    ensures
        fingerprint::written(b, at, value).len() == b.len(),
        forall|k: int, j: int|
            0 <= k < at.len() && 0 <= j < 32 && 0 <= at[k] && at[k] + 32 <= b.len()
                ==> fingerprint::written(b, at, value)[#[trigger] at[k] + j]
                == #[trigger] value[j],
        forall|i: int|
            0 <= i < b.len() && (forall|k: int|
                0 <= k < at.len() ==> !(#[trigger] at[k] <= i < at[k] + 32))
                ==> #[trigger] fingerprint::written(b, at, value)[i] == b[i],
{
    let p = fingerprint::written(b, at, value);
    assert forall|k: int, j: int|
        0 <= k < at.len() && 0 <= j < 32 && 0 <= at[k] && at[k] + 32 <= b.len() implies p[
    #[trigger] at[k] + j] == #[trigger] value[j] by {
        let i = at[k] + j;
        assert(at[k] <= i < at[k] + value.len());
        let m = choose|m: int| 0 <= m < at.len() && #[trigger] at[m] <= i < at[m] + value.len();
        if m < k {
            assert(at[m] + 64 <= at[k]);
        } else if k < m {
            assert(at[k] + 64 <= at[m]);
        }
    }
}

proof fn lemma_room_holds(b: Seq<u8>, value: Seq<u8>, k: int)
    requires
        value.len() == 32,
        0 <= k < fingerprint::slots(b).len(),
    ensures
        ({
            let s = fingerprint::slots(b);
            &&& 0 <= s[k] && s[k] + 32 <= b.len()
            &&& fingerprint::written(b, s, value).len() == b.len()
            &&& fingerprint::written(b, s, value).subrange(s[k], s[k] + 32) == value
        }),
{
    let s = fingerprint::slots(b);
    lemma_slots(b, 0);
    assert(fingerprint::record_at(b, s[k] - 16));
    assert(fingerprint::magic_end().len() == 16);
    lemma_written(b, s, value);
    let p = fingerprint::written(b, s, value);
    assert(p.subrange(s[k], s[k] + 32) =~= value) by {
        assert forall|j: int| 0 <= j < 32 implies p[s[k] + j] == #[trigger] value[j] by {}
    }
}

/// The fingerprint of an executable is that of the executable without it: patching it in,
/// or anything else of its size, leaves the fingerprint as it was. Of an executable in which
/// a mark stands alone, before a room, that need not hold.
pub proof fn law_fingerprint_does_not_change_itself(
    bytes: &Vec<u8>,
    f: Option<Vec<u8>>,
    value: &Vec<u8>,
    p: Option<Vec<u8>>,
    g: Option<Vec<u8>>,
)
    requires
        call_ensures(fingerprint::executable_fingerprint, (bytes,), f),
        call_ensures(fingerprint::patch_executable_fingerprint, (bytes, value), p),
        p is Some ==> call_ensures(fingerprint::executable_fingerprint, (&p->0,), g),
        value@.len() == 32,
        fingerprint::no_stray_mark(bytes@, 0),
    ensures
        f is Some <==> p is Some,
        f is Some ==> (f->0)@.len() == 32 && g is Some && (g->0)@ == (f->0)@,
{
    if p is Some {
        fingerprint::law_patching_keeps_slots(bytes@, value@);
        fingerprint::law_fingerprint_is_stable(bytes@, value@);
    }
}

/// An image that is read has the placeholder in every room, whatever stood there.
pub proof fn law_image_has_placeholders(
    bytes: &Vec<u8>,
    r: Option<ExecutableFingerprintImage>,
    blank: Vec<u8>,
)
    requires
        call_ensures(fingerprint::load_executable_fingerprint_image, (bytes,), r),
        call_ensures(fingerprint::fingerprint_placeholder, (), blank),
        r is Some,
    ensures
        blank@.len() == 32,
        r->0.normalized@.len() == bytes@.len(),
        forall|k: int|
            0 <= k < r->0.slots@.len() ==> r->0.normalized@.subrange(
                #[trigger] r->0.slots@[k] as int,
                r->0.slots@[k] + 32,
            ) == blank@,
{
    let b = bytes@;
    let s = fingerprint::slots(b);
    assert(fingerprint::placeholder().len() == 32);
    let at = r->0.slots@;
    assert(fingerprint::as_ints(at).len() == at.len());
    assert forall|k: int| 0 <= k < at.len() implies r->0.normalized@.subrange(
        #[trigger] at[k] as int,
        at[k] + 32,
    ) == blank@ by {
        assert(fingerprint::as_ints(at)[k] == at[k]);
        lemma_room_holds(b, blank@, k);
    }
}

/// A digit of a number below sixteen.
pub open spec fn is_digit_of(c: char, n: int) -> bool {
    &&& 0 <= n <= 9 ==> c as int == '0' as int + n
    &&& 10 <= n <= 15 ==> c as int == 'A' as int + (n - 10)
}

proof fn lemma_hex(b: Seq<u8>)
    ensures
        fingerprint::hex_text(b).len() == 2 * b.len(),
        forall|i: int|
            0 <= i < b.len() ==> is_digit_of(
                fingerprint::hex_text(b)[2 * i],
                (#[trigger] b[i]) as int / 16,
            ) && is_digit_of(fingerprint::hex_text(b)[2 * i + 1], b[i] as int % 16),
    decreases b.len(),
{
    if b.len() > 0 {
        let c = b.drop_last();
        lemma_hex(c);
        let (x, y) = (fingerprint::hex_text(b), fingerprint::hex_text(c));
        assert forall|i: int| 0 <= i < b.len() implies is_digit_of(
            x[2 * i],
            (#[trigger] b[i]) as int / 16,
        ) && is_digit_of(x[2 * i + 1], b[i] as int % 16) by {
            if i < c.len() {
                assert(c[i] == b[i]);
                assert(x[2 * i] == y[2 * i] && x[2 * i + 1] == y[2 * i + 1]);
            }
        }
    }
}

/// Bytes as text: two digits each, the high one first.
pub proof fn law_hex_digits(bytes: &[u8], r: String)
    requires
        call_ensures(fingerprint::uppercase_hex, (bytes,), r),
    ensures
        r@.len() == 2 * bytes@.len(),
        forall|i: int|
            0 <= i < bytes@.len() ==> is_digit_of(r@[2 * i], (#[trigger] bytes@[i]) as int / 16)
                && is_digit_of(r@[2 * i + 1], bytes@[i] as int % 16),
{
    lemma_hex(bytes@);
}

} // verus!
