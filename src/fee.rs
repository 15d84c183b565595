use vstd::prelude::*;

verus! {

/// Basis points that make up the whole price.
pub const BPS_DENOMINATOR: u16 = 10000;

/// The platform's share of a price: `floor(price * fee_bps / 10000)`.
pub open spec fn platform_fee_of(price: int, fee_bps: int) -> int {
    (price * fee_bps) / 10000
}

/// The agent's share of a price: what remains after the platform fee.
pub open spec fn agent_amount_of(price: int, fee_bps: int) -> int {
    price - platform_fee_of(price, fee_bps)
}

proof fn lemma_fee_bounded(price: int, fee_bps: int)
    requires
        0 <= price,
        0 <= fee_bps <= 10000,
    ensures
        0 <= platform_fee_of(price, fee_bps) <= price,
{
    assert(0 <= price * fee_bps <= price * 10000) by (nonlinear_arith)
        requires
            0 <= price,
            0 <= fee_bps <= 10000,
    ;
    vstd::arithmetic::div_mod::lemma_div_is_ordered(price * fee_bps, price * 10000, 10000);
    vstd::arithmetic::div_mod::lemma_div_is_ordered(0, price * fee_bps, 10000);
    vstd::arithmetic::div_mod::lemma_div_multiples_vanish(price, 10000);
    assert(price * 10000 == 10000 * price) by (nonlinear_arith);
}

/// Splitting a price loses and creates no value: for every fee rate in
/// [0, 10000] the platform fee and the agent's amount are both between zero
/// and the price, and together they are exactly the price.
pub proof fn lemma_split_conserves_value(price: u64, fee_bps: u16)
    requires
        fee_bps <= 10000,
    ensures
        0 <= platform_fee_of(price as int, fee_bps as int) <= price,
        0 <= agent_amount_of(price as int, fee_bps as int) <= price,
        agent_amount_of(price as int, fee_bps as int) + platform_fee_of(price as int, fee_bps as int)
            == price,
{
    lemma_fee_bounded(price as int, fee_bps as int);
}

/// Splits `price` at the rate `fee_bps` into `(platform_fee, agent_amount)`.
/// The product is taken in 128 bits, so no price overflows it.
pub fn split_payment(price: u64, fee_bps: u16) -> (r: (u64, u64))
    requires
        fee_bps <= 10000,
    ensures
        r.0 == platform_fee_of(price as int, fee_bps as int),
        r.1 == agent_amount_of(price as int, fee_bps as int),
        r.0 + r.1 == price,
{
    proof {
        lemma_split_conserves_value(price, fee_bps);
        assert((price as u128) * (fee_bps as u128) <= 0xffff_ffff_ffff_ffffu128 * 10000u128)
            by (nonlinear_arith)
            requires
                fee_bps <= 10000,
        ;
    }
    let product: u128 = (price as u128) * (fee_bps as u128);
    let platform_fee: u64 = (product / (BPS_DENOMINATOR as u128)) as u64;
    let agent_amount: u64 = price - platform_fee;
    (platform_fee, agent_amount)
}

} // verus!
