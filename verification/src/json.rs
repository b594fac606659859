//! The JSON form of a recording, and its codec: a serializer that produces
//! exactly the canonical document, and a parser that recovers a recording
//! from it, proved inverse to the serializer.

use vstd::prelude::*;

use crate::bytes::{expect, lemma_matches_at_concat, matches_at};
use crate::digits::{
    dec_matches, dec_of, frac9_of, lemma_padded_len, parse_dec_u32, parse_frac9, push_dec_u32,
    push_frac9, FRAC_DENOM,
};
use crate::recording::{Recording, SaveError, NUMBER_OF_ENTRIES_PER_MIN};
use crate::sample::{Acceleration, Gyroscope};

verus! {

/// `{"start_time":`
pub open spec fn lit_start() -> Seq<u8> {
    seq![123u8, 34u8, 115u8, 116u8, 97u8, 114u8, 116u8, 95u8, 116u8, 105u8, 109u8, 101u8, 34u8, 58u8]
}

/// `,"accelerations":[`
pub open spec fn lit_acc() -> Seq<u8> {
    seq![44u8, 34u8, 97u8, 99u8, 99u8, 101u8, 108u8, 101u8, 114u8, 97u8, 116u8, 105u8, 111u8, 110u8, 115u8, 34u8, 58u8, 91u8]
}

/// `],"gyroscope_angles":[`
pub open spec fn lit_gyro() -> Seq<u8> {
    seq![93u8, 44u8, 34u8, 103u8, 121u8, 114u8, 111u8, 115u8, 99u8, 111u8, 112u8, 101u8, 95u8, 97u8, 110u8, 103u8, 108u8, 101u8, 115u8, 34u8, 58u8, 91u8]
}

/// `]}`
pub open spec fn lit_end() -> Seq<u8> {
    seq![93u8, 125u8]
}

/// `{"t":`
pub open spec fn lit_t() -> Seq<u8> {
    seq![123u8, 34u8, 116u8, 34u8, 58u8]
}

/// `,"x":`
pub open spec fn lit_x() -> Seq<u8> {
    seq![44u8, 34u8, 120u8, 34u8, 58u8]
}

/// `,"y":`
pub open spec fn lit_y() -> Seq<u8> {
    seq![44u8, 34u8, 121u8, 34u8, 58u8]
}

/// `,"z":`
pub open spec fn lit_z() -> Seq<u8> {
    seq![44u8, 34u8, 122u8, 34u8, 58u8]
}

fn lit_start_vec() -> (v: Vec<u8>)
    ensures
        v@ == lit_start(),
{
    let mut v: Vec<u8> = Vec::new();
    v.push(123);
    v.push(34);
    v.push(115);
    v.push(116);
    v.push(97);
    v.push(114);
    v.push(116);
    v.push(95);
    v.push(116);
    v.push(105);
    v.push(109);
    v.push(101);
    v.push(34);
    v.push(58);
    proof {
        assert(v@ =~= lit_start());
    }
    v
}

fn lit_acc_vec() -> (v: Vec<u8>)
    ensures
        v@ == lit_acc(),
{
    let mut v: Vec<u8> = Vec::new();
    v.push(44);
    v.push(34);
    v.push(97);
    v.push(99);
    v.push(99);
    v.push(101);
    v.push(108);
    v.push(101);
    v.push(114);
    v.push(97);
    v.push(116);
    v.push(105);
    v.push(111);
    v.push(110);
    v.push(115);
    v.push(34);
    v.push(58);
    v.push(91);
    proof {
        assert(v@ =~= lit_acc());
    }
    v
}

fn lit_gyro_vec() -> (v: Vec<u8>)
    ensures
        v@ == lit_gyro(),
{
    let mut v: Vec<u8> = Vec::new();
    v.push(93);
    v.push(44);
    v.push(34);
    v.push(103);
    v.push(121);
    v.push(114);
    v.push(111);
    v.push(115);
    v.push(99);
    v.push(111);
    v.push(112);
    v.push(101);
    v.push(95);
    v.push(97);
    v.push(110);
    v.push(103);
    v.push(108);
    v.push(101);
    v.push(115);
    v.push(34);
    v.push(58);
    v.push(91);
    proof {
        assert(v@ =~= lit_gyro());
    }
    v
}

fn lit_end_vec() -> (v: Vec<u8>)
    ensures
        v@ == lit_end(),
{
    let mut v: Vec<u8> = Vec::new();
    v.push(93);
    v.push(125);
    proof {
        assert(v@ =~= lit_end());
    }
    v
}

fn lit_t_vec() -> (v: Vec<u8>)
    ensures
        v@ == lit_t(),
{
    let mut v: Vec<u8> = Vec::new();
    v.push(123);
    v.push(34);
    v.push(116);
    v.push(34);
    v.push(58);
    proof {
        assert(v@ =~= lit_t());
    }
    v
}

fn lit_x_vec() -> (v: Vec<u8>)
    ensures
        v@ == lit_x(),
{
    let mut v: Vec<u8> = Vec::new();
    v.push(44);
    v.push(34);
    v.push(120);
    v.push(34);
    v.push(58);
    proof {
        assert(v@ =~= lit_x());
    }
    v
}

fn lit_y_vec() -> (v: Vec<u8>)
    ensures
        v@ == lit_y(),
{
    let mut v: Vec<u8> = Vec::new();
    v.push(44);
    v.push(34);
    v.push(121);
    v.push(34);
    v.push(58);
    proof {
        assert(v@ =~= lit_y());
    }
    v
}

fn lit_z_vec() -> (v: Vec<u8>)
    ensures
        v@ == lit_z(),
{
    let mut v: Vec<u8> = Vec::new();
    v.push(44);
    v.push(34);
    v.push(122);
    v.push(34);
    v.push(58);
    proof {
        assert(v@ =~= lit_z());
    }
    v
}

/// Appends all of `p`.
fn push_bytes(v: &mut Vec<u8>, p: &Vec<u8>)
    ensures
        final(v)@ == old(v)@ + p@,
{
    let mut k: usize = 0;
    while k < p.len()
        invariant
            k <= p@.len(),
            v@ == old(v)@ + p@.take(k as int),
        decreases p@.len() - k,
    {
        v.push(p[k]);
        proof {
            assert(v@ =~= old(v)@ + p@.take(k + 1));
        }
        k += 1;
    }
    proof {
        assert(p@.take(p@.len() as int) =~= p@);
    }
}

/// The timestamp and the three axis magnitudes of one sample, as they stand
/// in its JSON object: `{"t":` t `,"x":` x `,"y":` y `,"z":` z `}`.
pub open spec fn sample_json(t: u32, x: u32, y: u32, z: u32) -> Seq<u8> {
    lit_t() + dec_of(t as nat) + lit_x() + frac9_of(x as nat) + lit_y() + frac9_of(y as nat)
        + lit_z() + frac9_of(z as nat) + seq![125u8]
}

/// The array elements from index `k` on, each but the array's first preceded
/// by a comma.
pub open spec fn samples_json_from(ts: Seq<(u32, u32, u32, u32)>, k: int) -> Seq<u8>
    decreases ts.len() - k,
{
    if k < 0 || k >= ts.len() {
        Seq::empty()
    } else {
        (if k > 0 {
            seq![44u8]
        } else {
            Seq::<u8>::empty()
        }) + sample_json(ts[k].0, ts[k].1, ts[k].2, ts[k].3) + samples_json_from(ts, k + 1)
    }
}

/// The field tuples of an acceleration sequence.
pub open spec fn accel_tuples(ss: Seq<Acceleration>) -> Seq<(u32, u32, u32, u32)> {
    ss.map(|i: int, a: Acceleration| (a.t, a.x, a.y, a.z))
}

/// The field tuples of a gyroscope sequence.
pub open spec fn gyro_tuples(ss: Seq<Gyroscope>) -> Seq<(u32, u32, u32, u32)> {
    ss.map(|i: int, g: Gyroscope| (g.t, g.x, g.y, g.z))
}

/// The canonical JSON document of a recording.
pub open spec fn json_of(r: Recording) -> Seq<u8> {
    lit_start() + dec_of(r.start_time as nat) + lit_acc() + samples_json_from(
        accel_tuples(r.accelerations@),
        0,
    ) + lit_gyro() + samples_json_from(gyro_tuples(r.gyroscope_angles@), 0) + lit_end()
}

/// Appends the JSON object of one sample.
fn push_sample(out: &mut Vec<u8>, t: u32, x: u32, y: u32, z: u32)
    requires
        x < FRAC_DENOM,
        y < FRAC_DENOM,
        z < FRAC_DENOM,
    ensures
        final(out)@ == old(out)@ + sample_json(t, x, y, z),
{
    let lt = lit_t_vec();
    push_bytes(out, &lt);
    push_dec_u32(out, t);
    let lx = lit_x_vec();
    push_bytes(out, &lx);
    push_frac9(out, x);
    let ly = lit_y_vec();
    push_bytes(out, &ly);
    push_frac9(out, y);
    let lz = lit_z_vec();
    push_bytes(out, &lz);
    push_frac9(out, z);
    out.push(125);
    proof {
        assert(out@ =~= old(out)@ + sample_json(t, x, y, z));
    }
}

/// A tuple's three magnitudes are in range.
pub open spec fn tuple_valid(tp: (u32, u32, u32, u32)) -> bool {
    tp.1 < FRAC_DENOM && tp.2 < FRAC_DENOM && tp.3 < FRAC_DENOM
}

/// Every tuple's magnitudes are in range.
pub open spec fn tuples_valid(ts: Seq<(u32, u32, u32, u32)>) -> bool {
    forall|k: int| 0 <= k < ts.len() ==> tuple_valid(#[trigger] ts[k])
}

/// Where each piece of a sample object stands, when the whole object stands
/// at `i`.
proof fn lemma_sample_json_parts(s: Seq<u8>, i: int, t: u32, x: u32, y: u32, z: u32)
    requires
        matches_at(s, i, sample_json(t, x, y, z)),
    ensures
        sample_json(t, x, y, z).len() == 54 + dec_of(t as nat).len(),
        matches_at(s, i, lit_t()),
        dec_matches(s, i + 5, t),
        matches_at(s, i + 5 + dec_of(t as nat).len(), lit_x()),
        matches_at(s, i + 10 + dec_of(t as nat).len(), frac9_of(x as nat)),
        matches_at(s, i + 21 + dec_of(t as nat).len(), lit_y()),
        matches_at(s, i + 26 + dec_of(t as nat).len(), frac9_of(y as nat)),
        matches_at(s, i + 37 + dec_of(t as nat).len(), lit_z()),
        matches_at(s, i + 42 + dec_of(t as nat).len(), frac9_of(z as nat)),
        i + 53 + dec_of(t as nat).len() < s.len(),
        s[i + 53 + dec_of(t as nat).len()] == 125,
{
    lemma_padded_len(x as nat, 9);
    lemma_padded_len(y as nat, 9);
    lemma_padded_len(z as nat, 9);
    let l = dec_of(t as nat).len() as int;
    let p1 = lit_t() + dec_of(t as nat);
    let p2 = p1 + lit_x();
    let p3 = p2 + frac9_of(x as nat);
    let p4 = p3 + lit_y();
    let p5 = p4 + frac9_of(y as nat);
    let p6 = p5 + lit_z();
    let p7 = p6 + frac9_of(z as nat);
    assert(sample_json(t, x, y, z) == p7 + seq![125u8]);
    lemma_matches_at_concat(s, i, p7, seq![125u8]);
    lemma_matches_at_concat(s, i, p6, frac9_of(z as nat));
    lemma_matches_at_concat(s, i, p5, lit_z());
    lemma_matches_at_concat(s, i, p4, frac9_of(y as nat));
    lemma_matches_at_concat(s, i, p3, lit_y());
    lemma_matches_at_concat(s, i, p2, frac9_of(x as nat));
    lemma_matches_at_concat(s, i, p1, lit_x());
    lemma_matches_at_concat(s, i, lit_t(), dec_of(t as nat));
    assert(s[i + 53 + l] == 125) by {
        assert(s.subrange(i + 53 + l, i + 54 + l)[0] == seq![125u8][0]);
    }
    assert(s[i + 5 + l] == 44) by {
        assert(s.subrange(i + 5 + l, i + 10 + l)[0] == lit_x()[0]);
    }
}

/// Reads one sample object starting at `i`.
///
/// Canonical recovery: whenever the object of some valid field tuple stands
/// at `i`, the parse yields exactly that tuple and stops right after it.
#[verifier::rlimit(100)]
fn parse_sample(s: &Vec<u8>, i: usize) -> (r: Option<((u32, u32, u32, u32), usize)>)
    requires
        i <= s@.len(),
    ensures
        r matches Some(p) ==> i <= p.1 <= s@.len() && tuple_valid(p.0),
        forall|tp: (u32, u32, u32, u32)|
            tuple_valid(tp) && #[trigger] matches_at(
                s@,
                i as int,
                sample_json(tp.0, tp.1, tp.2, tp.3),
            ) ==> (r matches Some(p) && p.0 == tp && p.1 as int == i + sample_json(
                tp.0,
                tp.1,
                tp.2,
                tp.3,
            ).len()),
{
    let slen = s.len();
    let lt = lit_t_vec();
    if !expect(s, i, &lt) {
        proof {
            assert forall|tp: (u32, u32, u32, u32)|
                tuple_valid(tp) && #[trigger] matches_at(
                    s@,
                    i as int,
                    sample_json(tp.0, tp.1, tp.2, tp.3),
                ) implies false by {
                lemma_sample_json_parts(s@, i as int, tp.0, tp.1, tp.2, tp.3);
                assert(matches_at(s@, i as int, lit_t()));
            }
        }
        return None;
    }
    proof {
        assert(lit_t().len() == 5);
        assert(i + 5 <= s@.len());
    }
    let p1 = i + 5;
    let rd = parse_dec_u32(s, p1);
    let (t, p2) = match rd {
        Some(v) => v,
        None => {
            proof {
                assert forall|tp: (u32, u32, u32, u32)|
                    tuple_valid(tp) && #[trigger] matches_at(
                        s@,
                        i as int,
                        sample_json(tp.0, tp.1, tp.2, tp.3),
                    ) implies false by {
                    lemma_sample_json_parts(s@, i as int, tp.0, tp.1, tp.2, tp.3);
                    assert(dec_matches(s@, p1 as int, tp.0));
                }
            }
            return None;
        },
    };
    let lx = lit_x_vec();
    if !expect(s, p2, &lx) {
        proof {
            assert forall|tp: (u32, u32, u32, u32)|
                tuple_valid(tp) && #[trigger] matches_at(
                    s@,
                    i as int,
                    sample_json(tp.0, tp.1, tp.2, tp.3),
                ) implies false by {
                lemma_sample_json_parts(s@, i as int, tp.0, tp.1, tp.2, tp.3);
                assert(dec_matches(s@, p1 as int, tp.0));
                assert(p2 as int == i + 5 + dec_of(tp.0 as nat).len());
                assert(matches_at(s@, p2 as int, lit_x()));
            }
        }
        return None;
    }
    proof {
        assert(p2 + 5 <= s@.len());
    }
    let p3 = p2 + 5;
    let rx = parse_frac9(s, p3);
    let (x, p4) = match rx {
        Some(v) => v,
        None => {
            proof {
                assert forall|tp: (u32, u32, u32, u32)|
                    tuple_valid(tp) && #[trigger] matches_at(
                        s@,
                        i as int,
                        sample_json(tp.0, tp.1, tp.2, tp.3),
                    ) implies false by {
                    lemma_sample_json_parts(s@, i as int, tp.0, tp.1, tp.2, tp.3);
                    assert(dec_matches(s@, p1 as int, tp.0));
                    assert(p3 as int == i + 10 + dec_of(tp.0 as nat).len());
                    assert(matches_at(s@, p3 as int, frac9_of(tp.1 as nat)));
                }
            }
            return None;
        },
    };
    let ly = lit_y_vec();
    if !expect(s, p4, &ly) {
        proof {
            assert forall|tp: (u32, u32, u32, u32)|
                tuple_valid(tp) && #[trigger] matches_at(
                    s@,
                    i as int,
                    sample_json(tp.0, tp.1, tp.2, tp.3),
                ) implies false by {
                lemma_sample_json_parts(s@, i as int, tp.0, tp.1, tp.2, tp.3);
                assert(dec_matches(s@, p1 as int, tp.0));
                assert(p3 as int == i + 10 + dec_of(tp.0 as nat).len());
                assert(matches_at(s@, p3 as int, frac9_of(tp.1 as nat)));
                assert(p4 as int == i + 21 + dec_of(tp.0 as nat).len());
                assert(matches_at(s@, p4 as int, lit_y()));
            }
        }
        return None;
    }
    proof {
        assert(p4 + 5 <= s@.len());
    }
    let p5 = p4 + 5;
    let ry = parse_frac9(s, p5);
    let (y, p6) = match ry {
        Some(v) => v,
        None => {
            proof {
                assert forall|tp: (u32, u32, u32, u32)|
                    tuple_valid(tp) && #[trigger] matches_at(
                        s@,
                        i as int,
                        sample_json(tp.0, tp.1, tp.2, tp.3),
                    ) implies false by {
                    lemma_sample_json_parts(s@, i as int, tp.0, tp.1, tp.2, tp.3);
                    assert(dec_matches(s@, p1 as int, tp.0));
                    assert(p3 as int == i + 10 + dec_of(tp.0 as nat).len());
                    assert(matches_at(s@, p3 as int, frac9_of(tp.1 as nat)));
                    assert(p5 as int == i + 26 + dec_of(tp.0 as nat).len());
                    assert(matches_at(s@, p5 as int, frac9_of(tp.2 as nat)));
                }
            }
            return None;
        },
    };
    let lz = lit_z_vec();
    if !expect(s, p6, &lz) {
        proof {
            assert forall|tp: (u32, u32, u32, u32)|
                tuple_valid(tp) && #[trigger] matches_at(
                    s@,
                    i as int,
                    sample_json(tp.0, tp.1, tp.2, tp.3),
                ) implies false by {
                lemma_sample_json_parts(s@, i as int, tp.0, tp.1, tp.2, tp.3);
                assert(dec_matches(s@, p1 as int, tp.0));
                assert(p3 as int == i + 10 + dec_of(tp.0 as nat).len());
                assert(matches_at(s@, p3 as int, frac9_of(tp.1 as nat)));
                assert(p5 as int == i + 26 + dec_of(tp.0 as nat).len());
                assert(matches_at(s@, p5 as int, frac9_of(tp.2 as nat)));
                assert(p6 as int == i + 37 + dec_of(tp.0 as nat).len());
                assert(matches_at(s@, p6 as int, lit_z()));
            }
        }
        return None;
    }
    proof {
        assert(p6 + 5 <= s@.len());
    }
    let p7 = p6 + 5;
    let rz = parse_frac9(s, p7);
    let (z, p8) = match rz {
        Some(v) => v,
        None => {
            proof {
                assert forall|tp: (u32, u32, u32, u32)|
                    tuple_valid(tp) && #[trigger] matches_at(
                        s@,
                        i as int,
                        sample_json(tp.0, tp.1, tp.2, tp.3),
                    ) implies false by {
                    lemma_sample_json_parts(s@, i as int, tp.0, tp.1, tp.2, tp.3);
                    assert(dec_matches(s@, p1 as int, tp.0));
                    assert(p3 as int == i + 10 + dec_of(tp.0 as nat).len());
                    assert(matches_at(s@, p3 as int, frac9_of(tp.1 as nat)));
                    assert(p5 as int == i + 26 + dec_of(tp.0 as nat).len());
                    assert(matches_at(s@, p5 as int, frac9_of(tp.2 as nat)));
                    assert(p7 as int == i + 42 + dec_of(tp.0 as nat).len());
                    assert(matches_at(s@, p7 as int, frac9_of(tp.3 as nat)));
                }
            }
            return None;
        },
    };
    if p8 == slen || s[p8] != 125 {
        proof {
            assert forall|tp: (u32, u32, u32, u32)|
                tuple_valid(tp) && #[trigger] matches_at(
                    s@,
                    i as int,
                    sample_json(tp.0, tp.1, tp.2, tp.3),
                ) implies false by {
                lemma_sample_json_parts(s@, i as int, tp.0, tp.1, tp.2, tp.3);
                assert(dec_matches(s@, p1 as int, tp.0));
                assert(p3 as int == i + 10 + dec_of(tp.0 as nat).len());
                assert(matches_at(s@, p3 as int, frac9_of(tp.1 as nat)));
                assert(p5 as int == i + 26 + dec_of(tp.0 as nat).len());
                assert(matches_at(s@, p5 as int, frac9_of(tp.2 as nat)));
                assert(p7 as int == i + 42 + dec_of(tp.0 as nat).len());
                assert(matches_at(s@, p7 as int, frac9_of(tp.3 as nat)));
                assert(p8 as int == i + 53 + dec_of(tp.0 as nat).len());
                assert(p8 < s@.len() && s@[p8 as int] == 125);
            }
        }
        return None;
    }
    proof {
        assert forall|tp: (u32, u32, u32, u32)|
            tuple_valid(tp) && #[trigger] matches_at(
                s@,
                i as int,
                sample_json(tp.0, tp.1, tp.2, tp.3),
            ) implies ((t, x, y, z) == tp && p8 + 1 == i + sample_json(
            tp.0,
            tp.1,
            tp.2,
            tp.3,
        ).len()) by {
            lemma_sample_json_parts(s@, i as int, tp.0, tp.1, tp.2, tp.3);
            assert(dec_matches(s@, p1 as int, tp.0));
            assert(t == tp.0);
            assert(p3 as int == i + 10 + dec_of(tp.0 as nat).len());
            assert(matches_at(s@, p3 as int, frac9_of(tp.1 as nat)));
            assert(x == tp.1);
            assert(p5 as int == i + 26 + dec_of(tp.0 as nat).len());
            assert(matches_at(s@, p5 as int, frac9_of(tp.2 as nat)));
            assert(y == tp.2);
            assert(p7 as int == i + 42 + dec_of(tp.0 as nat).len());
            assert(matches_at(s@, p7 as int, frac9_of(tp.3 as nat)));
            assert(z == tp.3);
            assert(p8 as int == i + 53 + dec_of(tp.0 as nat).len());
        }
    }
    Some(((t, x, y, z), p8 + 1))
}

/// Reads exactly `n` comma-separated sample objects starting at `i`.
///
/// Canonical recovery: whenever the array body of some valid tuple sequence
/// of length `n` stands at `i`, the parse yields exactly those tuples and
/// stops right after them.
#[verifier::rlimit(100)]
fn parse_samples(s: &Vec<u8>, i: usize, n: usize) -> (r: Option<
    (Vec<(u32, u32, u32, u32)>, usize),
>)
    requires
        i <= s@.len(),
    ensures
        r matches Some(p) ==> i <= p.1 <= s@.len() && p.0@.len() == n && tuples_valid(p.0@),
        forall|ts: Seq<(u32, u32, u32, u32)>|
            ts.len() == n && tuples_valid(ts) && #[trigger] matches_at(
                s@,
                i as int,
                samples_json_from(ts, 0),
            ) ==> (r matches Some(p) && p.0@ == ts && p.1 as int == i + samples_json_from(
                ts,
                0,
            ).len()),
{
    let slen = s.len();
    let mut items: Vec<(u32, u32, u32, u32)> = Vec::new();
    let mut pos: usize = i;
    let mut k: usize = 0;
    while k < n
        invariant
            i <= pos <= s@.len(),
            slen == s@.len(),
            k <= n,
            items@.len() == k,
            tuples_valid(items@),
            forall|ts: Seq<(u32, u32, u32, u32)>|
                ts.len() == n && tuples_valid(ts) && #[trigger] matches_at(
                    s@,
                    i as int,
                    samples_json_from(ts, 0),
                ) ==> (items@ == ts.take(k as int) && pos as int == i + samples_json_from(
                    ts,
                    0,
                ).len() - samples_json_from(ts, k as int).len() && matches_at(
                    s@,
                    pos as int,
                    samples_json_from(ts, k as int),
                )),
        decreases n - k,
    {
        let ghost oldpos = pos as int;
        let ghost olditems = items@;
        let mut cur = pos;
        if k > 0 {
            if pos == slen || s[pos] != 44 {
                proof {
                    assert forall|ts: Seq<(u32, u32, u32, u32)>|
                        ts.len() == n && tuples_valid(ts) && #[trigger] matches_at(
                            s@,
                            i as int,
                            samples_json_from(ts, 0),
                        ) implies false by {
                        let sep = seq![44u8];
                        let sj = sample_json(
                            ts[k as int].0,
                            ts[k as int].1,
                            ts[k as int].2,
                            ts[k as int].3,
                        );
                        let rest = samples_json_from(ts, k + 1);
                        assert(samples_json_from(ts, k as int) == sep + sj + rest);
                        lemma_matches_at_concat(s@, oldpos, sep + sj, rest);
                        lemma_matches_at_concat(s@, oldpos, sep, sj);
                        assert(s@.subrange(oldpos, oldpos + 1)[0] == 44);
                    }
                }
                return None;
            }
            cur = pos + 1;
        }
        let rs = parse_sample(s, cur);
        match rs {
            None => {
                proof {
                    assert forall|ts: Seq<(u32, u32, u32, u32)>|
                        ts.len() == n && tuples_valid(ts) && #[trigger] matches_at(
                            s@,
                            i as int,
                            samples_json_from(ts, 0),
                        ) implies false by {
                        let sep: Seq<u8> = if k > 0 {
                            seq![44u8]
                        } else {
                            Seq::<u8>::empty()
                        };
                        let sj = sample_json(
                            ts[k as int].0,
                            ts[k as int].1,
                            ts[k as int].2,
                            ts[k as int].3,
                        );
                        let rest = samples_json_from(ts, k + 1);
                        assert(samples_json_from(ts, k as int) == sep + sj + rest);
                        lemma_matches_at_concat(s@, oldpos, sep + sj, rest);
                        lemma_matches_at_concat(s@, oldpos, sep, sj);
                        assert(tuple_valid(ts[k as int]));
                        assert(matches_at(s@, cur as int, sj));
                    }
                }
                return None;
            },
            Some((tp, nxt)) => {
                items.push(tp);
                proof {
                    assert forall|ts: Seq<(u32, u32, u32, u32)>|
                        ts.len() == n && tuples_valid(ts) && #[trigger] matches_at(
                            s@,
                            i as int,
                            samples_json_from(ts, 0),
                        ) implies (items@ == ts.take(k + 1) && nxt as int == i + samples_json_from(
                        ts,
                        0,
                    ).len() - samples_json_from(ts, k + 1).len() && matches_at(
                        s@,
                        nxt as int,
                        samples_json_from(ts, k + 1),
                    )) by {
                        let sep: Seq<u8> = if k > 0 {
                            seq![44u8]
                        } else {
                            Seq::<u8>::empty()
                        };
                        let sj = sample_json(
                            ts[k as int].0,
                            ts[k as int].1,
                            ts[k as int].2,
                            ts[k as int].3,
                        );
                        let rest = samples_json_from(ts, k + 1);
                        assert(samples_json_from(ts, k as int) == sep + sj + rest);
                        lemma_matches_at_concat(s@, oldpos, sep + sj, rest);
                        lemma_matches_at_concat(s@, oldpos, sep, sj);
                        assert(tuple_valid(ts[k as int]));
                        assert(matches_at(s@, cur as int, sj));
                        assert(tp == ts[k as int]);
                        assert(olditems == ts.take(k as int));
                        assert(items@ =~= ts.take(k + 1));
                        assert(nxt as int == cur + sj.len());
                    }
                }
                pos = nxt;
                k += 1;
            },
        }
    }
    proof {
        assert forall|ts: Seq<(u32, u32, u32, u32)>|
            ts.len() == n && tuples_valid(ts) && #[trigger] matches_at(
                s@,
                i as int,
                samples_json_from(ts, 0),
            ) implies (items@ == ts && pos as int == i + samples_json_from(ts, 0).len()) by {
            assert(samples_json_from(ts, n as int) == Seq::<u8>::empty());
            assert(ts.take(n as int) =~= ts);
        }
    }
    Some((items, pos))
}

/// The tuples of a sequence of valid acceleration samples are valid.
proof fn lemma_accel_tuples_valid(ss: Seq<Acceleration>)
    requires
        forall|q: int| 0 <= q < ss.len() ==> (#[trigger] ss[q]).valid(),
    ensures
        accel_tuples(ss).len() == ss.len(),
        tuples_valid(accel_tuples(ss)),
{
    assert forall|q: int| 0 <= q < accel_tuples(ss).len() implies tuple_valid(
        #[trigger] accel_tuples(ss)[q],
    ) by {
        assert(ss[q].valid());
        assert(accel_tuples(ss)[q] == (ss[q].t, ss[q].x, ss[q].y, ss[q].z));
    }
}

/// The tuples of a sequence of valid gyroscope samples are valid.
proof fn lemma_gyro_tuples_valid(ss: Seq<Gyroscope>)
    requires
        forall|q: int| 0 <= q < ss.len() ==> (#[trigger] ss[q]).valid(),
    ensures
        gyro_tuples(ss).len() == ss.len(),
        tuples_valid(gyro_tuples(ss)),
{
    assert forall|q: int| 0 <= q < gyro_tuples(ss).len() implies tuple_valid(
        #[trigger] gyro_tuples(ss)[q],
    ) by {
        assert(ss[q].valid());
        assert(gyro_tuples(ss)[q] == (ss[q].t, ss[q].x, ss[q].y, ss[q].z));
    }
}

/// Where each piece of the document stands, when `s` is the document of `rec`.
#[verifier::rlimit(100)]
proof fn lemma_json_of_parts(s: Seq<u8>, rec: Recording)
    requires
        s == json_of(rec),
    ensures
        matches_at(s, 0, lit_start()),
        dec_matches(s, 14, rec.start_time),
        matches_at(s, 14 + dec_of(rec.start_time as nat).len() as int, lit_acc()),
        matches_at(
            s,
            32 + dec_of(rec.start_time as nat).len() as int,
            samples_json_from(accel_tuples(rec.accelerations@), 0),
        ),
        matches_at(
            s,
            32 + dec_of(rec.start_time as nat).len() as int + samples_json_from(
                accel_tuples(rec.accelerations@),
                0,
            ).len() as int,
            lit_gyro(),
        ),
        matches_at(
            s,
            54 + dec_of(rec.start_time as nat).len() as int + samples_json_from(
                accel_tuples(rec.accelerations@),
                0,
            ).len() as int,
            samples_json_from(gyro_tuples(rec.gyroscope_angles@), 0),
        ),
        matches_at(
            s,
            54 + dec_of(rec.start_time as nat).len() as int + samples_json_from(
                accel_tuples(rec.accelerations@),
                0,
            ).len() as int + samples_json_from(gyro_tuples(rec.gyroscope_angles@), 0).len() as int,
            lit_end(),
        ),
        s.len() == 56 + dec_of(rec.start_time as nat).len() + samples_json_from(
            accel_tuples(rec.accelerations@),
            0,
        ).len() + samples_json_from(gyro_tuples(rec.gyroscope_angles@), 0).len(),
{
    let l = dec_of(rec.start_time as nat).len() as int;
    let fa = samples_json_from(accel_tuples(rec.accelerations@), 0);
    let fg = samples_json_from(gyro_tuples(rec.gyroscope_angles@), 0);
    let q1 = lit_start() + dec_of(rec.start_time as nat);
    let q2 = q1 + lit_acc();
    let q3 = q2 + fa;
    let q4 = q3 + lit_gyro();
    let q5 = q4 + fg;
    assert(json_of(rec) == q5 + lit_end());
    assert(matches_at(s, 0, q5 + lit_end())) by {
        assert(s.subrange(0, s.len() as int) =~= s);
    }
    lemma_matches_at_concat(s, 0, q5, lit_end());
    lemma_matches_at_concat(s, 0, q4, fg);
    lemma_matches_at_concat(s, 0, q3, lit_gyro());
    lemma_matches_at_concat(s, 0, q2, fa);
    lemma_matches_at_concat(s, 0, q1, lit_acc());
    lemma_matches_at_concat(s, 0, lit_start(), dec_of(rec.start_time as nat));
    assert(s[14 + l] == 44) by {
        assert(s.subrange(14 + l, 32 + l)[0] == lit_acc()[0]);
    }
}

impl Recording {
    /// The canonical JSON document of this recording, byte for byte.
    pub fn to_json(&self) -> (out: Vec<u8>)
        requires
            self.wf(),
        ensures
            out@ == json_of(*self),
    {
        let ghost ta = accel_tuples(self.accelerations@);
        let ghost tg = gyro_tuples(self.gyroscope_angles@);
        let mut out: Vec<u8> = Vec::new();
        let l1 = lit_start_vec();
        push_bytes(&mut out, &l1);
        push_dec_u32(&mut out, self.start_time);
        let l2 = lit_acc_vec();
        push_bytes(&mut out, &l2);
        let ghost base_a = out@;
        let mut ind: usize = 0;
        while ind < self.accelerations.len()
            invariant
                self.wf(),
                ta == accel_tuples(self.accelerations@),
                ind <= self.accelerations@.len(),
                out@ + samples_json_from(ta, ind as int) == base_a + samples_json_from(ta, 0),
            decreases self.accelerations@.len() - ind,
        {
            let a = self.accelerations[ind];
            proof {
                assert(ta[ind as int] == (a.t, a.x, a.y, a.z));
                assert(a.valid());
            }
            if ind > 0 {
                out.push(44);
            }
            push_sample(&mut out, a.t, a.x, a.y, a.z);
            proof {
                assert(out@ + samples_json_from(ta, ind + 1) =~= base_a + samples_json_from(
                    ta,
                    0,
                ));
            }
            ind += 1;
        }
        proof {
            assert(samples_json_from(ta, self.accelerations@.len() as int) =~= Seq::<u8>::empty());
            assert(out@ =~= base_a + samples_json_from(ta, 0));
        }
        let l3 = lit_gyro_vec();
        push_bytes(&mut out, &l3);
        let ghost base_g = out@;
        let mut ind2: usize = 0;
        while ind2 < self.gyroscope_angles.len()
            invariant
                self.wf(),
                tg == gyro_tuples(self.gyroscope_angles@),
                ind2 <= self.gyroscope_angles@.len(),
                out@ + samples_json_from(tg, ind2 as int) == base_g + samples_json_from(tg, 0),
            decreases self.gyroscope_angles@.len() - ind2,
        {
            let g = self.gyroscope_angles[ind2];
            proof {
                assert(tg[ind2 as int] == (g.t, g.x, g.y, g.z));
                assert(g.valid());
            }
            if ind2 > 0 {
                out.push(44);
            }
            push_sample(&mut out, g.t, g.x, g.y, g.z);
            proof {
                assert(out@ + samples_json_from(tg, ind2 + 1) =~= base_g + samples_json_from(
                    tg,
                    0,
                ));
            }
            ind2 += 1;
        }
        proof {
            assert(samples_json_from(tg, self.gyroscope_angles@.len() as int) =~= Seq::<
                u8,
            >::empty());
            assert(out@ =~= base_g + samples_json_from(tg, 0));
        }
        let l4 = lit_end_vec();
        push_bytes(&mut out, &l4);
        proof {
            assert(out@ =~= json_of(*self));
        }
        out
    }

    /// The save step short of the file system: refuses a pre-existing target,
    /// otherwise yields the exact bytes to write.
    pub fn save_plan(&self, file_exists: bool) -> (r: Result<Vec<u8>, SaveError>)
        requires
            self.wf(),
        ensures
            file_exists ==> (r matches Err(e) && e == SaveError::PreexistingFile),
            !file_exists ==> (r matches Ok(v) && v@ == json_of(*self)),
    {
        if file_exists {
            Err(SaveError::PreexistingFile)
        } else {
            Ok(self.to_json())
        }
    }

    /// Parses the canonical JSON document back into a recording.
    ///
    /// Canonical recovery: whenever `s` is exactly the document of some
    /// well-formed recording, the parse returns precisely that recording, so
    /// the round trip through `to_json` and back is the identity.
    #[verifier::rlimit(100)]
    pub fn from_json(s: &Vec<u8>) -> (r: Option<Recording>)
        ensures
            r matches Some(rec) ==> rec.wf(),
            forall|rec: Recording|
                rec.wf() && s@ == json_of(rec) ==> (r matches Some(got) && got.start_time
                    == rec.start_time && got.accelerations@ == rec.accelerations@
                    && got.gyroscope_angles@ == rec.gyroscope_angles@),
    {
        let slen = s.len();
        let l1 = lit_start_vec();
        if !expect(s, 0, &l1) {
            proof {
                assert forall|rec0: Recording|
                    rec0.wf() && s@ == json_of(rec0) implies false by {
                    lemma_json_of_parts(s@, rec0);
                }
            }
            return None;
        }
        let rd = parse_dec_u32(s, 14);
        let (start_time, p1) = match rd {
            Some(v) => v,
            None => {
                proof {
                    assert forall|rec0: Recording|
                        rec0.wf() && s@ == json_of(rec0) implies false by {
                        lemma_json_of_parts(s@, rec0);
                        assert(dec_matches(s@, 14, rec0.start_time));
                    }
                }
                return None;
            },
        };
        let l2 = lit_acc_vec();
        if !expect(s, p1, &l2) {
            proof {
                assert forall|rec0: Recording|
                    rec0.wf() && s@ == json_of(rec0) implies false by {
                    lemma_json_of_parts(s@, rec0);
                    assert(dec_matches(s@, 14, rec0.start_time));
                    assert(p1 as int == 14 + dec_of(rec0.start_time as nat).len());
                    assert(matches_at(s@, p1 as int, lit_acc()));
                }
            }
            return None;
        }
        proof {
            assert(p1 + 18 <= s@.len());
        }
        let p2 = p1 + 18;
        let ra = parse_samples(s, p2, NUMBER_OF_ENTRIES_PER_MIN);
        let (va, p3) = match ra {
            Some(v) => v,
            None => {
                proof {
                    assert forall|rec0: Recording|
                        rec0.wf() && s@ == json_of(rec0) implies false by {
                        lemma_json_of_parts(s@, rec0);
                        lemma_accel_tuples_valid(rec0.accelerations@);
                        assert(dec_matches(s@, 14, rec0.start_time));
                        assert(p2 as int == 32 + dec_of(rec0.start_time as nat).len());
                        assert(matches_at(
                            s@,
                            p2 as int,
                            samples_json_from(accel_tuples(rec0.accelerations@), 0),
                        ));
                    }
                }
                return None;
            },
        };
        let l3 = lit_gyro_vec();
        if !expect(s, p3, &l3) {
            proof {
                assert forall|rec0: Recording|
                    rec0.wf() && s@ == json_of(rec0) implies false by {
                    lemma_json_of_parts(s@, rec0);
                    lemma_accel_tuples_valid(rec0.accelerations@);
                    assert(dec_matches(s@, 14, rec0.start_time));
                    assert(p2 as int == 32 + dec_of(rec0.start_time as nat).len());
                    assert(matches_at(
                        s@,
                        p2 as int,
                        samples_json_from(accel_tuples(rec0.accelerations@), 0),
                    ));
                    assert(p3 as int == p2 + samples_json_from(
                        accel_tuples(rec0.accelerations@),
                        0,
                    ).len());
                    assert(matches_at(s@, p3 as int, lit_gyro()));
                }
            }
            return None;
        }
        proof {
            assert(p3 + 22 <= s@.len());
        }
        let p4 = p3 + 22;
        let rg = parse_samples(s, p4, NUMBER_OF_ENTRIES_PER_MIN);
        let (vg, p5) = match rg {
            Some(v) => v,
            None => {
                proof {
                    assert forall|rec0: Recording|
                        rec0.wf() && s@ == json_of(rec0) implies false by {
                        lemma_json_of_parts(s@, rec0);
                        lemma_accel_tuples_valid(rec0.accelerations@);
                        lemma_gyro_tuples_valid(rec0.gyroscope_angles@);
                        assert(dec_matches(s@, 14, rec0.start_time));
                        assert(p2 as int == 32 + dec_of(rec0.start_time as nat).len());
                        assert(matches_at(
                            s@,
                            p2 as int,
                            samples_json_from(accel_tuples(rec0.accelerations@), 0),
                        ));
                        assert(p4 as int == 54 + dec_of(rec0.start_time as nat).len()
                            + samples_json_from(accel_tuples(rec0.accelerations@), 0).len());
                        assert(matches_at(
                            s@,
                            p4 as int,
                            samples_json_from(gyro_tuples(rec0.gyroscope_angles@), 0),
                        ));
                    }
                }
                return None;
            },
        };
        let l4 = lit_end_vec();
        if !expect(s, p5, &l4) {
            proof {
                assert forall|rec0: Recording|
                    rec0.wf() && s@ == json_of(rec0) implies false by {
                    lemma_json_of_parts(s@, rec0);
                    lemma_accel_tuples_valid(rec0.accelerations@);
                    lemma_gyro_tuples_valid(rec0.gyroscope_angles@);
                    assert(dec_matches(s@, 14, rec0.start_time));
                    assert(p2 as int == 32 + dec_of(rec0.start_time as nat).len());
                    assert(matches_at(
                        s@,
                        p2 as int,
                        samples_json_from(accel_tuples(rec0.accelerations@), 0),
                    ));
                    assert(p4 as int == 54 + dec_of(rec0.start_time as nat).len()
                        + samples_json_from(accel_tuples(rec0.accelerations@), 0).len());
                    assert(matches_at(
                        s@,
                        p4 as int,
                        samples_json_from(gyro_tuples(rec0.gyroscope_angles@), 0),
                    ));
                    assert(p5 as int == p4 + samples_json_from(
                        gyro_tuples(rec0.gyroscope_angles@),
                        0,
                    ).len());
                    assert(matches_at(s@, p5 as int, lit_end()));
                }
            }
            return None;
        }
        proof {
            assert(p5 + 2 <= s@.len());
        }
        if p5 + 2 != slen {
            proof {
                assert forall|rec0: Recording|
                    rec0.wf() && s@ == json_of(rec0) implies false by {
                    lemma_json_of_parts(s@, rec0);
                    lemma_accel_tuples_valid(rec0.accelerations@);
                    lemma_gyro_tuples_valid(rec0.gyroscope_angles@);
                    assert(dec_matches(s@, 14, rec0.start_time));
                    assert(p2 as int == 32 + dec_of(rec0.start_time as nat).len());
                    assert(matches_at(
                        s@,
                        p2 as int,
                        samples_json_from(accel_tuples(rec0.accelerations@), 0),
                    ));
                    assert(p4 as int == 54 + dec_of(rec0.start_time as nat).len()
                        + samples_json_from(accel_tuples(rec0.accelerations@), 0).len());
                    assert(matches_at(
                        s@,
                        p4 as int,
                        samples_json_from(gyro_tuples(rec0.gyroscope_angles@), 0),
                    ));
                    assert(p5 as int == p4 + samples_json_from(
                        gyro_tuples(rec0.gyroscope_angles@),
                        0,
                    ).len());
                }
            }
            return None;
        }
        let mut accelerations: Vec<Acceleration> = Vec::new();
        let mut m: usize = 0;
        while m < va.len()
            invariant
                m <= va@.len(),
                tuples_valid(va@),
                accelerations@.len() == m,
                forall|q: int|
                    0 <= q < m ==> #[trigger] accelerations@[q] == (Acceleration {
                        t: va@[q].0,
                        x: va@[q].1,
                        y: va@[q].2,
                        z: va@[q].3,
                    }),
            decreases va@.len() - m,
        {
            let tp = va[m];
            accelerations.push(Acceleration { t: tp.0, x: tp.1, y: tp.2, z: tp.3 });
            m += 1;
        }
        let mut gyroscope_angles: Vec<Gyroscope> = Vec::new();
        let mut w: usize = 0;
        while w < vg.len()
            invariant
                w <= vg@.len(),
                tuples_valid(vg@),
                gyroscope_angles@.len() == w,
                forall|q: int|
                    0 <= q < w ==> #[trigger] gyroscope_angles@[q] == (Gyroscope {
                        t: vg@[q].0,
                        x: vg@[q].1,
                        y: vg@[q].2,
                        z: vg@[q].3,
                    }),
            decreases vg@.len() - w,
        {
            let tp = vg[w];
            gyroscope_angles.push(Gyroscope { t: tp.0, x: tp.1, y: tp.2, z: tp.3 });
            w += 1;
        }
        let rec = Recording { start_time, accelerations, gyroscope_angles };
        proof {
            assert forall|q: int|
                0 <= q < rec.accelerations@.len() implies (
            #[trigger] rec.accelerations@[q]).valid() by {
                assert(tuple_valid(va@[q]));
            }
            assert forall|q: int|
                0 <= q < rec.gyroscope_angles@.len() implies (
            #[trigger] rec.gyroscope_angles@[q]).valid() by {
                assert(tuple_valid(vg@[q]));
            }
            assert(rec.wf());
            assert forall|rec0: Recording|
                rec0.wf() && s@ == json_of(rec0) implies (rec.start_time == rec0.start_time
                && rec.accelerations@ == rec0.accelerations@ && rec.gyroscope_angles@
                == rec0.gyroscope_angles@) by {
                lemma_json_of_parts(s@, rec0);
                lemma_accel_tuples_valid(rec0.accelerations@);
                lemma_gyro_tuples_valid(rec0.gyroscope_angles@);
                let ta = accel_tuples(rec0.accelerations@);
                let tg = gyro_tuples(rec0.gyroscope_angles@);
                assert(dec_matches(s@, 14, rec0.start_time));
                assert(start_time == rec0.start_time);
                assert(p2 as int == 32 + dec_of(rec0.start_time as nat).len());
                assert(matches_at(s@, p2 as int, samples_json_from(ta, 0)));
                assert(va@ == ta);
                assert(p4 as int == 54 + dec_of(rec0.start_time as nat).len()
                    + samples_json_from(ta, 0).len());
                assert(matches_at(s@, p4 as int, samples_json_from(tg, 0)));
                assert(vg@ == tg);
                assert forall|q: int|
                    0 <= q < rec.accelerations@.len() implies rec.accelerations@[q]
                    == rec0.accelerations@[q] by {
                    assert(ta[q] == (
                        rec0.accelerations@[q].t,
                        rec0.accelerations@[q].x,
                        rec0.accelerations@[q].y,
                        rec0.accelerations@[q].z,
                    ));
                    assert(rec.accelerations@[q] == (Acceleration {
                        t: va@[q].0,
                        x: va@[q].1,
                        y: va@[q].2,
                        z: va@[q].3,
                    }));
                }
                assert(rec.accelerations@ =~= rec0.accelerations@);
                assert forall|q: int|
                    0 <= q < rec.gyroscope_angles@.len() implies rec.gyroscope_angles@[q]
                    == rec0.gyroscope_angles@[q] by {
                    assert(tg[q] == (
                        rec0.gyroscope_angles@[q].t,
                        rec0.gyroscope_angles@[q].x,
                        rec0.gyroscope_angles@[q].y,
                        rec0.gyroscope_angles@[q].z,
                    ));
                    assert(rec.gyroscope_angles@[q] == (Gyroscope {
                        t: vg@[q].0,
                        x: vg@[q].1,
                        y: vg@[q].2,
                        z: vg@[q].3,
                    }));
                }
                assert(rec.gyroscope_angles@ =~= rec0.gyroscope_angles@);
            }
        }
        Some(rec)
    }
}

} // verus!
