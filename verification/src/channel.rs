//! Channels between the coordinator and a trader.
use vstd::prelude::*;

verus! {

/// A compressed public key.
pub type PublicKey = [u8; 33];

/// The identifier of a channel.
pub type ChannelId = [u8; 32];

/// Compares two arrays of bytes.
pub fn same_bytes<const N: usize>(left: &[u8; N], right: &[u8; N]) -> (same: bool)
    ensures
        same == (left@ == right@),
{
    let mut i: usize = 0;
    while i < N
        invariant
            i <= N,
            forall|j: int| 0 <= j < i ==> left@[j] == right@[j],
        decreases N - i,
    {
        if left[i] != right[i] {
            return false;
        }
        i = i + 1;
    }
    assert(left@ =~= right@);
    true
}

/// The lightning side of a channel.
#[derive(Clone, Copy, Debug)]
pub struct ChannelDetails {
    /// The node at the other end.
    pub counterparty: PublicKey,
    pub channel_value_satoshis: u64,
    pub inbound_capacity_msat: u64,
    pub outbound_capacity_msat: u64,
    pub unspendable_punishment_reserve: Option<u64>,
}

/// The state of a channel, as far as closing it on chain is concerned.
#[derive(Clone, Copy, Debug, PartialEq, Eq, Structural)]
pub enum SubChannelState {
    /// The channel has been closed on chain.
    OnChainClosed,
    /// Any other state.
    Other,
}

/// A lightning channel that carries a contract.
#[derive(Debug)]
pub struct SubChannel {
    pub channel_id: ChannelId,
    /// The node at the other end.
    pub counter_party: PublicKey,
    pub fund_value_satoshis: u64,
    /// Identifies the keys of the channel, if they have been recorded with it.
    pub channel_keys_id: Option<[u8; 32]>,
    pub own_fund_pk: PublicKey,
    pub counter_fund_pk: PublicKey,
    /// The script that guards the output of the funding transaction.
    pub original_funding_redeemscript: Vec<u8>,
    pub state: SubChannelState,
}

/// The first of the channels that has the given identifier.
pub open spec fn first_with_id(channels: Seq<SubChannel>, channel_id: Seq<u8>) -> Option<SubChannel>
    decreases channels.len(),
{
    if channels.len() == 0 {
        None
    } else if channels[0].channel_id@ == channel_id {
        Some(channels[0])
    } else {
        first_with_id(channels.drop_first(), channel_id)
    }
}

/// Takes the first of the channels that has the given identifier.
pub fn find_channel(channels: Vec<SubChannel>, channel_id: &ChannelId) -> (found: Option<SubChannel>)
    ensures
        found == first_with_id(channels@, channel_id@),
{
    let ghost all = channels@;
    let mut listed = channels;
    let mut i: usize = 0;
    assert(all.skip(0) =~= all);
    while i < listed.len()
        invariant
            all == channels@,
            listed@ == all,
            i <= all.len(),
            first_with_id(all, channel_id@) == first_with_id(all.skip(i as int), channel_id@),
        decreases all.len() - i,
    {
        if same_bytes(&listed[i].channel_id, channel_id) {
            return Some(listed.swap_remove(i));
        }
        assert(all.skip(i as int).drop_first() =~= all.skip(i + 1));
        i = i + 1;
    }
    None
}

/// Law: the channel found has the identifier that was looked for, it is one of the channels, and
/// none is found only if none of them has it.
pub proof fn law_found_channel_has_the_id(channels: Seq<SubChannel>, channel_id: Seq<u8>)
    ensures
        match first_with_id(channels, channel_id) {
            Some(found) => found.channel_id@ == channel_id && channels.contains(found),
            None => forall|i: int| 0 <= i < channels.len() ==> channels[i].channel_id@ != channel_id,
        },
    decreases channels.len(),
{
    if channels.len() > 0 {
        let rest = channels.drop_first();
        law_found_channel_has_the_id(rest, channel_id);
        if channels[0].channel_id@ == channel_id {
            assert(channels.contains(channels[0]));
        } else {
            match first_with_id(rest, channel_id) {
                Some(found) => {
                    let i = choose|i: int| 0 <= i < rest.len() && rest[i] == found;
                    assert(channels[i + 1] == found);
                },
                None => {
                    assert forall|i: int| 0 <= i < channels.len() implies channels[i].channel_id@
                        != channel_id by {
                        if i > 0 {
                            assert(rest[i - 1] == channels[i]);
                        }
                    }
                },
            }
        }
    }
}

/// Law: of several channels with the identifier that was looked for, the first one listed is found.
pub proof fn law_found_channel_is_the_first(channels: Seq<SubChannel>, channel_id: Seq<u8>, i: int)
    requires
        0 <= i < channels.len(),
        channels[i].channel_id@ == channel_id,
        forall|j: int| 0 <= j < i ==> (#[trigger] channels[j]).channel_id@ != channel_id,
    ensures
        first_with_id(channels, channel_id) == Some(channels[i]),
    decreases i,
{
    if i > 0 {
        let rest = channels.drop_first();
        assert(channels[0].channel_id@ != channel_id);
        assert forall|j: int| 0 <= j < i - 1 implies (#[trigger] rest[j]).channel_id@ != channel_id by {
            assert(rest[j] == channels[j + 1]);
        }
        law_found_channel_is_the_first(rest, channel_id, i - 1);
    }
}

} // verus!
