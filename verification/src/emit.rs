//! The transform & batch emitter and the one-record uppercase map
//! utility.
//!
//! With no transform configured, one event becomes exactly one keyless
//! downstream record. With a transform, its successful outputs are
//! partitioned into batches of one hundred that preserve arrival order
//! within and across batches, each batch sent as one atomic write,
//! strictly in order.

use vstd::prelude::*;

verus! {

/// The emission for an event when no transform is configured: exactly
/// one downstream record, carrying no key — ordering relies on the
/// single-partition target, not key routing.
pub fn plan_single_emission(encoded: Vec<u8>) -> (r: (Option<Vec<u8>>, Vec<u8>))
    ensures
        r.0 is None,
        r.1 == encoded,
{
    (None, encoded)
}

/// Partition transform outputs into batches of `BATCH_SIZE`, in order:
/// `ceil(n / BATCH_SIZE)` batches, every batch but the last exactly
/// full, and reading the batches in order reproduces the outputs in
/// order.
pub fn batch_records(outputs: Vec<Vec<u8>>) -> (r: Vec<Vec<Vec<u8>>>)
    requires
        outputs@.len() + 99 <= usize::MAX,
    ensures
        r@.len() == (outputs@.len() + 99) / 100,
        forall|b: int| 0 <= b < r@.len() ==> (#[trigger] r@[b])@.len() == (if 100 * (b + 1)
            <= outputs@.len() {
            100int
        } else {
            outputs@.len() - 100 * b
        }),
        forall|b: int, j: int|
            0 <= b < r@.len() && 0 <= j < r@[b]@.len() ==> (#[trigger] r@[b]@[j]) == outputs@[
                100 * b + j
            ],
{
    let ghost o0 = outputs@;
    let n = outputs.len();
    let nb = (n + 99) / 100;
    proof {
        vstd::arithmetic::div_mod::lemma_fundamental_div_mod(n + 99, 100);
        assert(n <= 100 * nb <= n + 99);
    }
    let mut rest = outputs;
    let mut batches: Vec<Vec<Vec<u8>>> = Vec::new();
    let mut done: usize = 0;
    let mut b: usize = 0;
    while b < nb
        invariant
            o0 == outputs@,
            n == o0.len(),
            nb == (n + 99) / 100,
            n <= 100 * nb <= n + 99,
            b <= nb,
            done as int == (if 100 * b <= n {
                100 * b as int
            } else {
                n as int
            }),
            done <= n,
            rest@ == o0.subrange(done as int, n as int),
            batches@.len() == b,
            forall|k: int| 0 <= k < b ==> (#[trigger] batches@[k])@.len() == (if 100 * (k + 1)
                <= n {
                100int
            } else {
                n - 100 * k
            }),
            forall|k: int, j: int|
                0 <= k < b && 0 <= j < batches@[k]@.len() ==> (#[trigger] batches@[k]@[j])
                    == o0[100 * k + j],
        decreases nb - b,
    {
        proof {
            assert(100 * b <= 100 * (nb - 1));
            assert(100 * (nb - 1) <= n - 1);
            assert(done == 100 * b);
        }
        let mut batch: Vec<Vec<u8>> = Vec::new();
        let mut c: usize = 0;
        while c < 100 && done + c < n
            invariant
                c <= 100,
                done + c <= n,
                n == o0.len(),
                rest@ == o0.subrange((done + c) as int, n as int),
                batch@.len() == c,
                forall|j: int| 0 <= j < c ==> (#[trigger] batch@[j]) == o0[done + j],
            decreases 100 - c,
        {
            let rec = rest.remove(0);
            proof {
                assert(rec == o0[(done + c) as int]);
                assert(rest@ =~= o0.subrange((done + c + 1) as int, n as int));
            }
            batch.push(rec);
            c = c + 1;
        }
        proof {
            assert(c == 100 || done + c == n);
            if 100 * (b + 1) <= n {
                assert(done + 100 <= n);
                assert(c == 100);
            } else {
                assert(done + c == n || c == 100);
                if c == 100 {
                    assert(done + 100 > n || 100 * (b + 1) <= n);
                }
            }
        }
        batches.push(batch);
        done = done + c;
        b = b + 1;
    }
    proof {
        assert(done == n);
    }
    batches
}

/// The upper-case form of an ASCII byte; anything else is unchanged.
pub open spec fn ascii_upper(b: u8) -> u8 {
    if 0x61 <= b <= 0x7a {
        (b - 0x20) as u8
    } else {
        b
    }
}

/// The one-record-in/one-record-out map utility: the key passes through
/// untouched and every ASCII letter of the value is upper-cased.
pub fn map(key: Option<Vec<u8>>, value: &Vec<u8>) -> (r: (Option<Vec<u8>>, Vec<u8>))
    ensures
        r.0 == key,
        r.1@.len() == value@.len(),
        forall|i: int| 0 <= i < value@.len() ==> r.1@[i] == ascii_upper(#[trigger] value@[i]),
{
    let mut out: Vec<u8> = Vec::new();
    let mut i: usize = 0;
    while i < value.len()
        invariant
            i <= value@.len(),
            out@.len() == i,
            forall|j: int| 0 <= j < i ==> out@[j] == ascii_upper(#[trigger] value@[j]),
        decreases value@.len() - i,
    {
        proof {
            assert(value@.len() == value.len());
        }
        let b = value[i];
        let u: u8 = if 0x61 <= b && b <= 0x7a {
            b - 0x20
        } else {
            b
        };
        out.push(u);
        i = i + 1;
    }
    (key, out)
}

} // verus!
