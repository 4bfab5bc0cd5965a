use vstd::prelude::*;

verus! {

/// The big-endian bytes of a `u64`, most significant first.
pub open spec fn u64_be(x: u64) -> Seq<u8> {
    seq![
        (x >> 56) as u8,
        (x >> 48) as u8,
        (x >> 40) as u8,
        (x >> 32) as u8,
        (x >> 24) as u8,
        (x >> 16) as u8,
        (x >> 8) as u8,
        x as u8,
    ]
}

/// The big-endian bytes of a `u128`, most significant first.
pub open spec fn u128_be(x: u128) -> Seq<u8> {
    seq![
        (x >> 120) as u8,
        (x >> 112) as u8,
        (x >> 104) as u8,
        (x >> 96) as u8,
        (x >> 88) as u8,
        (x >> 80) as u8,
        (x >> 72) as u8,
        (x >> 64) as u8,
        (x >> 56) as u8,
        (x >> 48) as u8,
        (x >> 40) as u8,
        (x >> 32) as u8,
        (x >> 24) as u8,
        (x >> 16) as u8,
        (x >> 8) as u8,
        x as u8,
    ]
}

/// The fixed byte string a transfer's signature covers:
/// sender, recipient and amount, each big-endian.
pub open spec fn spec_transfer_msg(sender: u64, recipient: u64, amount: u128) -> Seq<u8> {
    u64_be(sender) + u64_be(recipient) + u128_be(amount)
}

/// The fixed byte string a grant creation's signature covers:
/// caller, beneficiary, amount, start and end, each big-endian.
pub open spec fn spec_vesting_msg(
    caller: u64,
    beneficiary: u64,
    amount: u128,
    start_time: u64,
    end_time: u64,
) -> Seq<u8> {
    u64_be(caller) + u64_be(beneficiary) + u128_be(amount) + u64_be(start_time) + u64_be(end_time)
}

/// Appends the big-endian bytes of `x`.
fn push_u64_be(out: &mut Vec<u8>, x: u64)
    ensures
        final(out)@ == old(out)@ + u64_be(x),
{
    out.push(#[verifier::truncate] ((x >> 56) as u8));
    out.push(#[verifier::truncate] ((x >> 48) as u8));
    out.push(#[verifier::truncate] ((x >> 40) as u8));
    out.push(#[verifier::truncate] ((x >> 32) as u8));
    out.push(#[verifier::truncate] ((x >> 24) as u8));
    out.push(#[verifier::truncate] ((x >> 16) as u8));
    out.push(#[verifier::truncate] ((x >> 8) as u8));
    out.push(#[verifier::truncate] (x as u8));
    proof {
        assert(out@ =~= old(out)@ + u64_be(x));
    }
}

/// Appends the big-endian bytes of `x`.
fn push_u128_be(out: &mut Vec<u8>, x: u128)
    ensures
        final(out)@ == old(out)@ + u128_be(x),
{
    out.push(#[verifier::truncate] ((x >> 120) as u8));
    out.push(#[verifier::truncate] ((x >> 112) as u8));
    out.push(#[verifier::truncate] ((x >> 104) as u8));
    out.push(#[verifier::truncate] ((x >> 96) as u8));
    out.push(#[verifier::truncate] ((x >> 88) as u8));
    out.push(#[verifier::truncate] ((x >> 80) as u8));
    out.push(#[verifier::truncate] ((x >> 72) as u8));
    out.push(#[verifier::truncate] ((x >> 64) as u8));
    out.push(#[verifier::truncate] ((x >> 56) as u8));
    out.push(#[verifier::truncate] ((x >> 48) as u8));
    out.push(#[verifier::truncate] ((x >> 40) as u8));
    out.push(#[verifier::truncate] ((x >> 32) as u8));
    out.push(#[verifier::truncate] ((x >> 24) as u8));
    out.push(#[verifier::truncate] ((x >> 16) as u8));
    out.push(#[verifier::truncate] ((x >> 8) as u8));
    out.push(#[verifier::truncate] (x as u8));
    proof {
        assert(out@ =~= old(out)@ + u128_be(x));
    }
}

/// The byte string a transfer's signature covers.
pub fn transfer_message(sender: u64, recipient: u64, amount: u128) -> (r: Vec<u8>)
    ensures
        r@ == spec_transfer_msg(sender, recipient, amount),
{
    let mut out: Vec<u8> = Vec::new();
    push_u64_be(&mut out, sender);
    push_u64_be(&mut out, recipient);
    push_u128_be(&mut out, amount);
    proof {
        assert(out@ =~= spec_transfer_msg(sender, recipient, amount));
    }
    out
}

/// The byte string a grant creation's signature covers.
pub fn vesting_message(
    caller: u64,
    beneficiary: u64,
    amount: u128,
    start_time: u64,
    end_time: u64,
) -> (r: Vec<u8>)
    ensures
        r@ == spec_vesting_msg(caller, beneficiary, amount, start_time, end_time),
{
    let mut out: Vec<u8> = Vec::new();
    push_u64_be(&mut out, caller);
    push_u64_be(&mut out, beneficiary);
    push_u128_be(&mut out, amount);
    push_u64_be(&mut out, start_time);
    push_u64_be(&mut out, end_time);
    proof {
        assert(out@ =~= spec_vesting_msg(caller, beneficiary, amount, start_time, end_time));
    }
    out
}

} // verus!
