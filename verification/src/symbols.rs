//! Symbol-name filtering: whether a resolved frame name belongs to the
//! configured set of ignored prefixes and infixes — the allocator's own
//! internals and infrastructure code not meaningful to attribute to.

use vstd::prelude::*;

verus! {

/// `s` begins with `p`.
pub open spec fn starts_with_bytes(s: Seq<u8>, p: Seq<u8>) -> bool {
    p.len() <= s.len() && s.subrange(0, p.len() as int) == p
}

/// `p` occurs somewhere inside `s`.
pub open spec fn contains_bytes(s: Seq<u8>, p: Seq<u8>) -> bool {
    exists|k: int| 0 <= k && k + p.len() <= s.len() && #[trigger] s.subrange(k, k + p.len()) == p
}

/// Whether `p` stands at position `k` of `s`.
fn match_at(s: &[u8], k: usize, p: &[u8]) -> (r: bool)
    requires
        k + p@.len() <= s@.len(),
    ensures
        r == (s@.subrange(k as int, k + p@.len()) == p@),
{
    let n = s.len();
    let m = p.len();
    let mut j: usize = 0;
    while j < m
        invariant
            j <= m,
            m == p@.len(),
            n == s@.len(),
            k + p@.len() <= s@.len(),
            forall|t: int| 0 <= t < j ==> s@[k + t] == p@[t],
        decreases p@.len() - j,
    {
        if s[k + j] != p[j] {
            proof {
                assert(s@.subrange(k as int, k + p@.len())[j as int] != p@[j as int]);
            }
            return false;
        }
        j += 1;
    }
    proof {
        assert(s@.subrange(k as int, k + p@.len()) =~= p@);
    }
    true
}

/// Whether `s` begins with `p`.
fn starts_with(s: &[u8], p: &[u8]) -> (r: bool)
    ensures
        r == starts_with_bytes(s@, p@),
{
    if p.len() > s.len() {
        false
    } else {
        match_at(s, 0, p)
    }
}

/// Whether `p` occurs anywhere inside `s`.
fn contains_sub(s: &[u8], p: &[u8]) -> (r: bool)
    ensures
        r == contains_bytes(s@, p@),
{
    if p.len() > s.len() {
        return false;
    }
    if p.is_empty() {
        proof {
            assert(s@.subrange(0, 0 + p@.len() as int) =~= p@);
        }
        return true;
    }
    let n = s.len();
    let bound = n - p.len();
    let mut k: usize = 0;
    while k <= bound
        invariant
            1 <= p@.len() <= s@.len(),
            n == s@.len(),
            bound == s@.len() - p@.len(),
            k <= bound + 1,
            forall|t: int| 0 <= t < k ==> #[trigger] s@.subrange(t, t + p@.len()) != p@,
        decreases bound - k + 1,
    {
        if match_at(s, k, p) {
            return true;
        }
        k += 1;
    }
    proof {
        if contains_bytes(s@, p@) {
            let k0 = choose|k0: int|
                0 <= k0 && k0 + p@.len() <= s@.len() && #[trigger] s@.subrange(k0, k0 + p@.len())
                    == p@;
            assert(s@.subrange(k0, k0 + p@.len()) != p@);
        }
    }
    false
}

/// The configured symbol-name prefixes that are never attributed.
pub open spec fn spec_ignored_prefixes() -> Seq<Seq<u8>> {
    seq![
        // "__rg_"
        seq![95u8, 95u8, 114u8, 103u8, 95u8],
        // "_ZN5alloc"
        seq![95u8, 90u8, 78u8, 53u8, 97u8, 108u8, 108u8, 111u8, 99u8],
        // "_ZN6base64"
        seq![95u8, 90u8, 78u8, 54u8, 98u8, 97u8, 115u8, 101u8, 54u8, 52u8],
        // "_ZN6cached"
        seq![95u8, 90u8, 78u8, 54u8, 99u8, 97u8, 99u8, 104u8, 101u8, 100u8],
        // "_ZN9hashbrown"
        seq![95u8, 90u8, 78u8, 57u8, 104u8, 97u8, 115u8, 104u8, 98u8, 114u8, 111u8, 119u8, 110u8],
        // "_ZN20reed_solomon_erasure"
        seq![95u8, 90u8, 78u8, 50u8, 48u8, 114u8, 101u8, 101u8, 100u8, 95u8, 115u8, 111u8, 108u8, 111u8, 109u8, 111u8, 110u8, 95u8, 101u8, 114u8, 97u8, 115u8, 117u8, 114u8, 101u8],
    ]
}

/// The configured symbol-name infixes that are never attributed.
pub open spec fn spec_ignored_infixes() -> Seq<Seq<u8>> {
    seq![
        // "$LT$alloc"
        seq![36u8, 76u8, 84u8, 36u8, 97u8, 108u8, 108u8, 111u8, 99u8],
        // "serde_json..de..Deserializer"
        seq![115u8, 101u8, 114u8, 100u8, 101u8, 95u8, 106u8, 115u8, 111u8, 110u8, 46u8, 46u8, 100u8, 101u8, 46u8, 46u8, 68u8, 101u8, 115u8, 101u8, 114u8, 105u8, 97u8, 108u8, 105u8, 122u8, 101u8, 114u8],
        // "$LT$tracing_subscriber"
        seq![36u8, 76u8, 84u8, 36u8, 116u8, 114u8, 97u8, 99u8, 105u8, 110u8, 103u8, 95u8, 115u8, 117u8, 98u8, 115u8, 99u8, 114u8, 105u8, 98u8, 101u8, 114u8],
    ]
}

/// The ignore-prefix table, as the attributor consults it.
pub fn ignored_prefixes() -> (ps: Vec<Vec<u8>>)
    ensures
        ps@.len() == spec_ignored_prefixes().len(),
        forall|i: int| 0 <= i < ps@.len() ==> (#[trigger] ps@[i])@ == spec_ignored_prefixes()[i],
{
    let mut ps: Vec<Vec<u8>> = Vec::new();
    // "__rg_"
    let p: Vec<u8> = vec![95u8, 95u8, 114u8, 103u8, 95u8];
    proof {
        assert(p@ =~= spec_ignored_prefixes()[0]);
    }
    ps.push(p);
    // "_ZN5alloc"
    let p: Vec<u8> = vec![95u8, 90u8, 78u8, 53u8, 97u8, 108u8, 108u8, 111u8, 99u8];
    proof {
        assert(p@ =~= spec_ignored_prefixes()[1]);
    }
    ps.push(p);
    // "_ZN6base64"
    let p: Vec<u8> = vec![95u8, 90u8, 78u8, 54u8, 98u8, 97u8, 115u8, 101u8, 54u8, 52u8];
    proof {
        assert(p@ =~= spec_ignored_prefixes()[2]);
    }
    ps.push(p);
    // "_ZN6cached"
    let p: Vec<u8> = vec![95u8, 90u8, 78u8, 54u8, 99u8, 97u8, 99u8, 104u8, 101u8, 100u8];
    proof {
        assert(p@ =~= spec_ignored_prefixes()[3]);
    }
    ps.push(p);
    // "_ZN9hashbrown"
    let p: Vec<u8> = vec![95u8, 90u8, 78u8, 57u8, 104u8, 97u8, 115u8, 104u8, 98u8, 114u8, 111u8, 119u8, 110u8];
    proof {
        assert(p@ =~= spec_ignored_prefixes()[4]);
    }
    ps.push(p);
    // "_ZN20reed_solomon_erasure"
    let p: Vec<u8> = vec![95u8, 90u8, 78u8, 50u8, 48u8, 114u8, 101u8, 101u8, 100u8, 95u8, 115u8, 111u8, 108u8, 111u8, 109u8, 111u8, 110u8, 95u8, 101u8, 114u8, 97u8, 115u8, 117u8, 114u8, 101u8];
    proof {
        assert(p@ =~= spec_ignored_prefixes()[5]);
    }
    ps.push(p);
    ps
}

/// The ignore-infix table, as the attributor consults it.
pub fn ignored_infixes() -> (ps: Vec<Vec<u8>>)
    ensures
        ps@.len() == spec_ignored_infixes().len(),
        forall|i: int| 0 <= i < ps@.len() ==> (#[trigger] ps@[i])@ == spec_ignored_infixes()[i],
{
    let mut ps: Vec<Vec<u8>> = Vec::new();
    // "$LT$alloc"
    let p: Vec<u8> = vec![36u8, 76u8, 84u8, 36u8, 97u8, 108u8, 108u8, 111u8, 99u8];
    proof {
        assert(p@ =~= spec_ignored_infixes()[0]);
    }
    ps.push(p);
    // "serde_json..de..Deserializer"
    let p: Vec<u8> = vec![115u8, 101u8, 114u8, 100u8, 101u8, 95u8, 106u8, 115u8, 111u8, 110u8, 46u8, 46u8, 100u8, 101u8, 46u8, 46u8, 68u8, 101u8, 115u8, 101u8, 114u8, 105u8, 97u8, 108u8, 105u8, 122u8, 101u8, 114u8];
    proof {
        assert(p@ =~= spec_ignored_infixes()[1]);
    }
    ps.push(p);
    // "$LT$tracing_subscriber"
    let p: Vec<u8> = vec![36u8, 76u8, 84u8, 36u8, 116u8, 114u8, 97u8, 99u8, 105u8, 110u8, 103u8, 95u8, 115u8, 117u8, 98u8, 115u8, 99u8, 114u8, 105u8, 98u8, 101u8, 114u8];
    proof {
        assert(p@ =~= spec_ignored_infixes()[2]);
    }
    ps.push(p);
    ps
}

/// Whether a resolved symbol name (as bytes) matches the configured ignore
/// set: it starts with one of the prefixes or contains one of the infixes.
pub open spec fn spec_is_ignored_symbol(name: Seq<u8>) -> bool {
    ||| exists|i: int|
        0 <= i < spec_ignored_prefixes().len() && starts_with_bytes(
            name,
            #[trigger] spec_ignored_prefixes()[i],
        )
    ||| exists|i: int|
        0 <= i < spec_ignored_infixes().len() && contains_bytes(
            name,
            #[trigger] spec_ignored_infixes()[i],
        )
}

/// Whether a resolved symbol name belongs to the ignore set. A frame whose
/// name matches is never attributed; its filter slot goes onto the skip
/// list instead.
pub fn is_ignored_symbol(name: &[u8]) -> (r: bool)
    ensures
        r == spec_is_ignored_symbol(name@),
{
    let prefixes = ignored_prefixes();
    let mut i: usize = 0;
    while i < prefixes.len()
        invariant
            prefixes@.len() == spec_ignored_prefixes().len(),
            forall|t: int|
                0 <= t < prefixes@.len() ==> (#[trigger] prefixes@[t])@
                    == spec_ignored_prefixes()[t],
            i <= prefixes@.len(),
            forall|t: int|
                0 <= t < i ==> !starts_with_bytes(name@, #[trigger] spec_ignored_prefixes()[t]),
        decreases prefixes@.len() - i,
    {
        if starts_with(name, prefixes[i].as_slice()) {
            return true;
        }
        i += 1;
    }
    let infixes = ignored_infixes();
    let mut i: usize = 0;
    while i < infixes.len()
        invariant
            infixes@.len() == spec_ignored_infixes().len(),
            forall|t: int|
                0 <= t < infixes@.len() ==> (#[trigger] infixes@[t])@ == spec_ignored_infixes()[t],
            i <= infixes@.len(),
            forall|t: int|
                0 <= t < i ==> !contains_bytes(name@, #[trigger] spec_ignored_infixes()[t]),
            forall|t: int|
                0 <= t < spec_ignored_prefixes().len() ==> !starts_with_bytes(
                    name@,
                    #[trigger] spec_ignored_prefixes()[t],
                ),
        decreases infixes@.len() - i,
    {
        if contains_sub(name, infixes[i].as_slice()) {
            return true;
        }
        i += 1;
    }
    false
}

} // verus!
