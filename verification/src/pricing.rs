//! How a token count is split across the tiers of a tiered price list. The prices themselves,
//! and the money, are worked out outside.
use vstd::prelude::*;

verus! {

/// The tokens each tier takes, when `tokens` are spread over `limits` in order: each tier takes
/// what is left, up to its limit (`None`: no limit), and the split ends once nothing is left.
pub open spec fn tier_shares(tokens: nat, limits: Seq<Option<u64>>) -> Seq<nat>
    decreases limits.len(),
{
    if limits.len() == 0 || tokens == 0 {
        Seq::empty()
    } else {
        let cap: nat = match limits[0] {
            Some(m) => m as nat,
            None => u64::MAX as nat,
        };
        let take: nat = if tokens < cap { tokens } else { cap };
        seq![take] + tier_shares((tokens - take) as nat, limits.drop_first())
    }
}

/// The tokens each tier takes (see [`tier_shares`]).
pub fn tier_split(tokens: u64, limits: &[Option<u64>]) -> (r: Vec<u64>)
    ensures
        r@.map_values(|t: u64| t as nat) == tier_shares(tokens as nat, limits@),
{
    let mut out: Vec<u64> = Vec::new();
    let mut remaining = tokens;
    let mut i: usize = 0;
    assert(limits@.skip(0) =~= limits@);
    assert(out@.map_values(|t: u64| t as nat) + tier_shares(remaining as nat, limits@) =~= tier_shares(tokens as nat, limits@));
    while i < limits.len() && remaining > 0
        invariant
            i <= limits@.len(),
            out@.map_values(|t: u64| t as nat) + tier_shares(remaining as nat, limits@.skip(i as int))
                == tier_shares(tokens as nat, limits@),
        decreases limits@.len() - i,
    {
        let cap = match limits[i] {
            Some(m) => m,
            None => u64::MAX,
        };
        let take = if remaining < cap { remaining } else { cap };
        let ghost rest = limits@.skip(i as int);
        assert(rest[0] == limits@[i as int]);
        assert(rest.drop_first() =~= limits@.skip(i as int + 1));
        let ghost before = out@.map_values(|t: u64| t as nat);
        out.push(take);
        assert(out@.map_values(|t: u64| t as nat) =~= before.push(take as nat));
        assert(before + tier_shares(remaining as nat, rest) =~= before.push(take as nat) + tier_shares(
            (remaining - take) as nat,
            limits@.skip(i as int + 1),
        ));
        remaining = remaining - take;
        i = i + 1;
    }
    proof {
        let rest = limits@.skip(i as int);
        if remaining == 0 || rest.len() == 0 {
            assert(tier_shares(remaining as nat, rest) =~= Seq::<nat>::empty());
        }
        assert(out@.map_values(|t: u64| t as nat) + Seq::<nat>::empty() =~= out@.map_values(|t: u64| t as nat));
    }
    out
}

/// The sum of `s`.
pub open spec fn share_total(s: Seq<nat>) -> nat
    decreases s.len(),
{
    if s.len() == 0 { 0 } else { s[0] + share_total(s.drop_first()) }
}

/// The tiers take exactly the tokens there are, when the last tier has no limit.
pub proof fn law_tiers_take_every_token(tokens: nat, limits: Seq<Option<u64>>)
    requires
        limits.len() > 0,
        limits.last() is None,
        tokens <= u64::MAX,
    ensures
        share_total(tier_shares(tokens, limits)) == tokens,
    decreases limits.len(),
{
    let shares = tier_shares(tokens, limits);
    if tokens > 0 {
        let cap: nat = match limits[0] {
            Some(m) => m as nat,
            None => u64::MAX as nat,
        };
        let take: nat = if tokens < cap { tokens } else { cap };
        let rest = tier_shares((tokens - take) as nat, limits.drop_first());
        if limits.len() == 1 {
            assert(take == tokens);
            assert(rest =~= Seq::<nat>::empty());
        } else {
            assert(limits.drop_first().last() == limits.last());
            law_tiers_take_every_token((tokens - take) as nat, limits.drop_first());
        }
        assert(shares.drop_first() =~= rest);
    }
}

} // verus!
