//! Argument records of the EVM runner's host interface, with their byte
//! codec: fixed-width fields laid out in order, the variable-length call
//! input last, taking the rest of the buffer.

use vstd::prelude::*;

verus! {

/// A 20-byte EVM address in raw form.
pub type RawAddress = [u8; 20];

/// A 32-byte hash in raw form.
pub type RawHash = [u8; 32];

/// A 256-bit unsigned integer in raw form.
pub type RawU256 = [u8; 32];

/// An address followed by a 32-byte storage key.
pub type DataKey = [u8; 52];

/// An account name, as the host names accounts.
pub type AccountId = String;

/// The argument of calls that name one address.
pub struct AddressArg {
    pub address: RawAddress,
}

/// The argument of a storage read: an address and a storage key.
pub struct GetStorageAtArgs {
    pub address: RawAddress,
    pub key: RawHash,
}

/// The argument of a withdrawal: the receiving account and the amount.
pub struct WithdrawArgs {
    pub account_id: AccountId,
    pub amount: RawU256,
}

/// The argument of a transfer: the receiving address and the amount.
pub struct TransferArgs {
    pub address: RawAddress,
    pub amount: RawU256,
}

/// The argument of a view call: sender, target, attached amount, and the
/// call input.
#[derive(Debug)]
pub struct ViewCallArgs {
    pub sender: RawAddress,
    pub address: RawAddress,
    pub amount: RawU256,
    pub args: Vec<u8>,
}

/// The argument of a meta call. The address and amount fields hold the
/// raw 20- and 32-byte forms.
#[derive(Debug)]
pub struct MetaCallArgs {
    pub sender: RawAddress,
    pub nonce: RawU256,
    pub fee_amount: RawU256,
    pub fee_address: RawAddress,
    pub contract_address: RawAddress,
    pub input: Vec<u8>,
}

/// Why decoding an argument record failed.
#[derive(Clone, Copy, Debug, PartialEq, Eq, Structural)]
pub enum ArgsCodecError {
    /// The buffer is shorter than the record's fixed fields.
    UnexpectedLength,
}

/// Number of bytes of a view call's fixed fields: two addresses and one
/// amount.
pub const VIEW_CALL_FIXED_LEN: usize = 72;

/// Appends every byte of a fixed-size field to the output.
fn push_field<const N: usize>(out: &mut Vec<u8>, field: &[u8; N])
    ensures
        final(out)@ == old(out)@ + field@,
{
    let ghost base = out@;
    let mut i: usize = 0;
    while i < N
        invariant
            i <= N,
            out@.len() == base.len() + i,
            forall|j: int| 0 <= j < base.len() ==> out@[j] == base[j],
            forall|j: int| 0 <= j < i ==> out@[base.len() + j] == field@[j],
        decreases N - i,
    {
        out.push(field[i]);
        i += 1;
    }
    proof {
        assert(out@ =~= base + field@);
    }
}

/// Copies `N` bytes out of the buffer, starting at `from`.
fn read_field<const N: usize>(buf: &[u8], from: usize) -> (field: [u8; N])
    requires
        from + N <= buf@.len(),
    ensures
        field@ == buf@.subrange(from as int, from + N),
{
    let mut field: [u8; N] = [0u8; N];
    let n = buf.len();
    let mut i: usize = 0;
    while i < N
        invariant
            i <= N,
            n == buf@.len(),
            from + N <= buf@.len(),
            field@.len() == N,
            forall|j: int| 0 <= j < i ==> field@[j] == buf@[from + j],
        decreases N - i,
    {
        field[i] = buf[from + i];
        i += 1;
    }
    proof {
        assert(field@ =~= buf@.subrange(from as int, from + N));
    }
    field
}

impl ViewCallArgs {
    /// The record's byte form: sender, address, amount, then the call
    /// input, nothing between and nothing after.
    pub open spec fn spec_bytes(self) -> Seq<u8> {
        self.sender@ + self.address@ + self.amount@ + self.args@
    }

    /// Encodes the record. Never fails: every record has a byte form.
    pub fn try_to_vec(&self) -> (r: Result<Vec<u8>, ArgsCodecError>)
        ensures
            r matches Ok(v) && v@ == self.spec_bytes(),
    {
        let mut out: Vec<u8> = Vec::new();
        push_field(&mut out, &self.sender);
        push_field(&mut out, &self.address);
        push_field(&mut out, &self.amount);
        let mut i: usize = 0;
        let ghost base = out@;
        while i < self.args.len()
            invariant
                i <= self.args@.len(),
                out@.len() == base.len() + i,
                forall|j: int| 0 <= j < base.len() ==> out@[j] == base[j],
                forall|j: int| 0 <= j < i ==> out@[base.len() + j] == self.args@[j],
            decreases self.args@.len() - i,
        {
            out.push(self.args[i]);
            i += 1;
        }
        proof {
            assert(out@ =~= self.spec_bytes());
        }
        Ok(out)
    }

    /// Decodes a record: rejects a buffer shorter than the fixed fields —
    /// exactly then — and takes everything past them as the call input.
    pub fn try_from_slice(buf: &[u8]) -> (r: Result<ViewCallArgs, ArgsCodecError>)
        ensures
            r is Err <==> buf@.len() < VIEW_CALL_FIXED_LEN,
            r matches Err(e) ==> e == ArgsCodecError::UnexpectedLength,
            r matches Ok(v) ==> {
                &&& v.sender@ == buf@.subrange(0, 20)
                &&& v.address@ == buf@.subrange(20, 40)
                &&& v.amount@ == buf@.subrange(40, 72)
                &&& v.args@ == buf@.subrange(72, buf@.len() as int)
            },
    {
        if buf.len() < VIEW_CALL_FIXED_LEN {
            return Err(ArgsCodecError::UnexpectedLength);
        }
        let sender: [u8; 20] = read_field(buf, 0);
        let address: [u8; 20] = read_field(buf, 20);
        let amount: [u8; 32] = read_field(buf, 40);
        let n = buf.len();
        let mut args: Vec<u8> = Vec::new();
        let mut i: usize = VIEW_CALL_FIXED_LEN;
        while i < n
            invariant
                VIEW_CALL_FIXED_LEN <= i <= n,
                n == buf@.len(),
                args@.len() == i - VIEW_CALL_FIXED_LEN,
                forall|j: int| 0 <= j < args@.len() ==> args@[j] == buf@[VIEW_CALL_FIXED_LEN + j],
            decreases n - i,
        {
            args.push(buf[i]);
            i += 1;
        }
        proof {
            assert(args@ =~= buf@.subrange(72, buf@.len() as int));
        }
        Ok(ViewCallArgs { sender, address, amount, args })
    }
}

/// Encoding then decoding a view call yields the record back, field for
/// field: the byte form is at least as long as the fixed fields, and each
/// field reads back from its own range.
pub proof fn lemma_view_call_roundtrip(x: ViewCallArgs)
    ensures
        x.spec_bytes().len() == VIEW_CALL_FIXED_LEN + x.args@.len(),
        x.spec_bytes().subrange(0, 20) == x.sender@,
        x.spec_bytes().subrange(20, 40) == x.address@,
        x.spec_bytes().subrange(40, 72) == x.amount@,
        x.spec_bytes().subrange(72, x.spec_bytes().len() as int) == x.args@,
{
    assert(x.spec_bytes().subrange(0, 20) =~= x.sender@);
    assert(x.spec_bytes().subrange(20, 40) =~= x.address@);
    assert(x.spec_bytes().subrange(40, 72) =~= x.amount@);
    assert(x.spec_bytes().subrange(72, x.spec_bytes().len() as int) =~= x.args@);
}

impl PartialEq for ViewCallArgs {
    /// Two view calls are equal when all four fields agree byte for byte.
    fn eq(&self, other: &ViewCallArgs) -> (r: bool) {
        if self.args.len() != other.args.len() {
            return false;
        }
        let mut i: usize = 0;
        while i < 20
            invariant
                i <= 20,
                forall|j: int|
                    0 <= j < i ==> self.sender@[j] == other.sender@[j] && self.address@[j]
                        == other.address@[j],
            decreases 20 - i,
        {
            if self.sender[i] != other.sender[i] || self.address[i] != other.address[i] {
                return false;
            }
            i += 1;
        }
        let mut i: usize = 0;
        while i < 32
            invariant
                i <= 32,
                forall|j: int| 0 <= j < i ==> self.amount@[j] == other.amount@[j],
            decreases 32 - i,
        {
            if self.amount[i] != other.amount[i] {
                return false;
            }
            i += 1;
        }
        let mut i: usize = 0;
        while i < self.args.len()
            invariant
                i <= self.args@.len(),
                self.args@.len() == other.args@.len(),
                forall|j: int| 0 <= j < i ==> self.args@[j] == other.args@[j],
            decreases self.args@.len() - i,
        {
            if self.args[i] != other.args[i] {
                return false;
            }
            i += 1;
        }
        proof {
            assert(self.sender@ =~= other.sender@);
            assert(self.address@ =~= other.address@);
            assert(self.amount@ =~= other.amount@);
            assert(self.args@ =~= other.args@);
        }
        true
    }
}

impl vstd::std_specs::cmp::PartialEqSpecImpl for ViewCallArgs {
    open spec fn obeys_eq_spec() -> bool {
        true
    }

    open spec fn eq_spec(&self, other: &ViewCallArgs) -> bool {
        &&& self.sender@ == other.sender@
        &&& self.address@ == other.address@
        &&& self.amount@ == other.amount@
        &&& self.args@ == other.args@
    }
}

} // verus!
