use vstd::prelude::*;

use crate::multiaddr::{spec_verify, Multiaddr, MultiaddrError};
use crate::pallet::Pallet;
use crate::table::{bytes_clone, Table};
use crate::types::{opt_bytes_view, opt_peer_view, PalletError, PeerInfo, PeerInfoView};

verus! {

/// The longest peer identity accepted, in bytes.
pub const MAX_PEER_ID_LENGTH: usize = 128;

/// The format rule on peer identities: non-empty and bounded.
pub open spec fn valid_peer_id(p: Seq<u8>) -> bool {
    0 < p.len() <= MAX_PEER_ID_LENGTH
}

pub open spec fn multiaddr_error_of(e: MultiaddrError) -> PalletError {
    match e {
        MultiaddrError::InvalidVarint => PalletError::MultiaddrInvalidVarint,
        MultiaddrError::InvalidProtocol => PalletError::MultiaddrInvalidProtocol,
        MultiaddrError::InvalidAddress => PalletError::MultiaddrInvalidAddress,
        MultiaddrError::Truncated => PalletError::MultiaddrTruncated,
    }
}

/// A reverse index keyed by (subnet, bytes).
pub type ByteIndex = Map<(u32, Seq<u8>), u32>;

/// `m` without the entry of `k` in subnet `s`, if `k` is given.
pub open spec fn drop_key(m: ByteIndex, s: u32, k: Option<Seq<u8>>) -> ByteIndex {
    match k {
        Some(b) => m.remove((s, b)),
        None => m,
    }
}

/// `m` with `k` in subnet `s` claimed by `id`, if `k` is given.
pub open spec fn put_key(m: ByteIndex, s: u32, k: Option<Seq<u8>>, id: u32) -> ByteIndex {
    match k {
        Some(b) => m.insert((s, b), id),
        None => m,
    }
}

pub open spec fn peer_id_of(p: Option<PeerInfoView>) -> Option<Seq<u8>> {
    match p {
        Some(i) => Some(i.peer_id),
        None => None,
    }
}

pub open spec fn addr_of(p: Option<PeerInfoView>) -> Option<Seq<u8>> {
    match p {
        Some(i) => i.multiaddr,
        None => None,
    }
}

/// Replaces the claim of `old` by a claim of `new` for node `id`, in a peer index and in
/// the address index.
pub open spec fn swap_peer_claims(
    peers: ByteIndex,
    addrs: ByteIndex,
    s: u32,
    old: Option<PeerInfoView>,
    new: Option<PeerInfoView>,
    id: u32,
) -> (ByteIndex, ByteIndex) {
    (
        put_key(drop_key(peers, s, peer_id_of(old)), s, peer_id_of(new), id),
        put_key(drop_key(addrs, s, addr_of(old)), s, addr_of(new), id),
    )
}

pub(crate) fn drop_entry(t: &mut Table<(u32, Vec<u8>), u32>, s: u32, k: &Option<Vec<u8>>)
    requires
        old(t).wf(),
    ensures
        final(t).wf(),
        final(t)@ == drop_key(old(t)@, s, opt_bytes_view(*k)),
{
    if let Some(b) = k {
        let _ = t.remove(&(s, bytes_clone(b)));
    }
}

pub(crate) fn put_entry(t: &mut Table<(u32, Vec<u8>), u32>, s: u32, k: &Option<Vec<u8>>, id: u32)
    requires
        old(t).wf(),
    ensures
        final(t).wf(),
        final(t)@ == put_key(old(t)@, s, opt_bytes_view(*k), id),
{
    if let Some(b) = k {
        t.insert((s, bytes_clone(b)), id);
    }
}

fn peer_id_opt(p: &Option<PeerInfo>) -> (r: Option<Vec<u8>>)
    ensures
        opt_bytes_view(r) == peer_id_of(opt_peer_view(*p)),
{
    match p {
        Some(i) => Some(bytes_clone(&i.peer_id)),
        None => None,
    }
}

fn addr_opt(p: &Option<PeerInfo>) -> (r: Option<Vec<u8>>)
    ensures
        opt_bytes_view(r) == addr_of(opt_peer_view(*p)),
{
    match p {
        Some(i) => crate::table::opt_bytes_clone(&i.multiaddr),
        None => None,
    }
}

/// Moves the claims of node `id` from `old` to `new` in `peers` and in `addrs`: the old
/// claims are dropped first, then the new ones are made.
pub(crate) fn swap_claims(
    peers: &mut Table<(u32, Vec<u8>), u32>,
    addrs: &mut Table<(u32, Vec<u8>), u32>,
    s: u32,
    old_info: &Option<PeerInfo>,
    new_info: &Option<PeerInfo>,
    id: u32,
)
    requires
        old(peers).wf(),
        old(addrs).wf(),
    ensures
        final(peers).wf(),
        final(addrs).wf(),
        (final(peers)@, final(addrs)@) == swap_peer_claims(
            old(peers)@,
            old(addrs)@,
            s,
            opt_peer_view(*old_info),
            opt_peer_view(*new_info),
            id,
        ),
{
    let op = peer_id_opt(old_info);
    let oa = addr_opt(old_info);
    let np = peer_id_opt(new_info);
    let na = addr_opt(new_info);
    drop_entry(peers, s, &op);
    drop_entry(addrs, s, &oa);
    put_entry(peers, s, &np, id);
    put_entry(addrs, s, &na, id);
}

impl Pallet {
    /// Ownership of a peer identity as the registry decides it: the first of the primary,
    /// bootnode, client and overwatch indexes that holds the identity decides, by whether
    /// its claimant is the caller (`node` for the first three, `overwatch` for the last);
    /// an identity no index holds is free.
    pub open spec fn spec_is_owner_of_peer_or_ownerless(
        &self,
        s: u32,
        node: u32,
        overwatch: u32,
        peer: Seq<u8>,
    ) -> bool {
        let k = (s, peer);
        if self.ids.peer_ids@.contains_key(k) {
            self.ids.peer_ids@[k] == node
        } else if self.ids.bootnode_peer_ids@.contains_key(k) {
            self.ids.bootnode_peer_ids@[k] == node
        } else if self.ids.client_peer_ids@.contains_key(k) {
            self.ids.client_peer_ids@[k] == node
        } else if self.ids.overwatch_peer_ids@.contains_key(k) {
            self.ids.overwatch_peer_ids@[k] == overwatch
        } else {
            true
        }
    }

    /// An address is free, or claimed by `node`.
    pub open spec fn spec_is_owner_of_multiaddr_or_ownerless(
        &self,
        s: u32,
        node: u32,
        addr: Seq<u8>,
    ) -> bool {
        !self.ids.multiaddrs@.contains_key((s, addr)) || self.ids.multiaddrs@[(s, addr)] == node
    }

    /// The verdict on a peer info claimed by `node`: identity format, identity ownership,
    /// then, for an address, its encoding and its ownership.
    pub open spec fn spec_validate_peer_info(
        &self,
        s: u32,
        node: u32,
        overwatch: u32,
        p: PeerInfoView,
    ) -> Result<(), PalletError> {
        if !valid_peer_id(p.peer_id) {
            Err(PalletError::InvalidPeerId)
        } else if !self.spec_is_owner_of_peer_or_ownerless(s, node, overwatch, p.peer_id) {
            Err(PalletError::PeerIdExist)
        } else {
            match p.multiaddr {
                None => Ok(()),
                Some(m) => match spec_verify(m) {
                    Err(e) => Err(multiaddr_error_of(e)),
                    Ok(_) => if !self.spec_is_owner_of_multiaddr_or_ownerless(s, node, m) {
                        Err(PalletError::MultiaddrExist)
                    } else {
                        Ok(())
                    },
                },
            }
        }
    }

    /// The format check on a peer identity.
    pub fn validate_peer_id(peer_id: &Vec<u8>) -> (r: bool)
        ensures
            r == valid_peer_id(peer_id@),
    {
        peer_id.len() > 0 && peer_id.len() <= MAX_PEER_ID_LENGTH
    }

    pub fn is_owner_of_peer_or_ownerless(
        &self,
        subnet_id: u32,
        subnet_node_id: u32,
        overwatch_node_id: u32,
        peer_id: &Vec<u8>,
    ) -> (r: bool)
        requires
            self.wf(),
        ensures
            r == self.spec_is_owner_of_peer_or_ownerless(
                subnet_id,
                subnet_node_id,
                overwatch_node_id,
                peer_id@,
            ),
    {
        let k = (subnet_id, bytes_clone(peer_id));
        if let Some(owner) = self.ids.peer_ids.get(&k) {
            return *owner == subnet_node_id;
        }
        if let Some(owner) = self.ids.bootnode_peer_ids.get(&k) {
            return *owner == subnet_node_id;
        }
        if let Some(owner) = self.ids.client_peer_ids.get(&k) {
            return *owner == subnet_node_id;
        }
        if let Some(owner) = self.ids.overwatch_peer_ids.get(&k) {
            return *owner == overwatch_node_id;
        }
        true
    }

    pub fn is_owner_of_multiaddr_or_ownerless(
        &self,
        subnet_id: u32,
        subnet_node_id: u32,
        multiaddr: &Vec<u8>,
    ) -> (r: bool)
        requires
            self.wf(),
        ensures
            r == self.spec_is_owner_of_multiaddr_or_ownerless(
                subnet_id,
                subnet_node_id,
                multiaddr@,
            ),
    {
        match self.ids.multiaddrs.get(&(subnet_id, bytes_clone(multiaddr))) {
            Some(owner) => *owner == subnet_node_id,
            None => true,
        }
    }

    /// Verifies an encoded address, reporting codec errors as registry errors.
    pub fn do_verify_multiaddr(multiaddr: &[u8]) -> (r: Result<(), PalletError>)
        ensures
            match spec_verify(multiaddr@) {
                Ok(_) => r == Ok::<(), PalletError>(()),
                Err(e) => r == Err::<(), PalletError>(multiaddr_error_of(e)),
            },
    {
        match Multiaddr::verify(multiaddr) {
            Ok(_) => Ok(()),
            Err(MultiaddrError::InvalidVarint) => Err(PalletError::MultiaddrInvalidVarint),
            Err(MultiaddrError::InvalidProtocol) => Err(PalletError::MultiaddrInvalidProtocol),
            Err(MultiaddrError::InvalidAddress) => Err(PalletError::MultiaddrInvalidAddress),
            Err(MultiaddrError::Truncated) => Err(PalletError::MultiaddrTruncated),
        }
    }

    pub fn validate_peer_info(
        &self,
        subnet_id: u32,
        subnet_node_id: u32,
        overwatch_node_id: u32,
        peer_info: &PeerInfo,
    ) -> (r: Result<(), PalletError>)
        requires
            self.wf(),
        ensures
            r == self.spec_validate_peer_info(
                subnet_id,
                subnet_node_id,
                overwatch_node_id,
                peer_info@,
            ),
    {
        if !Self::validate_peer_id(&peer_info.peer_id) {
            return Err(PalletError::InvalidPeerId);
        }
        if !self.is_owner_of_peer_or_ownerless(
            subnet_id,
            subnet_node_id,
            overwatch_node_id,
            &peer_info.peer_id,
        ) {
            return Err(PalletError::PeerIdExist);
        }
        if let Some(m) = &peer_info.multiaddr {
            Self::do_verify_multiaddr(m.as_slice())?;
            if !self.is_owner_of_multiaddr_or_ownerless(subnet_id, subnet_node_id, m) {
                return Err(PalletError::MultiaddrExist);
            }
        }
        Ok(())
    }
}

} // verus!

verus! {

/// An identity claimed by other nodes in any of the primary, bootnode or client indexes, and
/// by `node` in none of them, is refused to `node` with `PeerIdExist`.
pub proof fn lemma_claimed_identity_refused(
    p: &Pallet,
    s: u32,
    node: u32,
    overwatch: u32,
    info: PeerInfoView,
)
    requires
        valid_peer_id(info.peer_id),
        p.ids.peer_ids@.contains_key((s, info.peer_id)) || p.ids.bootnode_peer_ids@.contains_key(
            (s, info.peer_id),
        ) || p.ids.client_peer_ids@.contains_key((s, info.peer_id)),
        p.ids.peer_ids@.contains_key((s, info.peer_id)) ==> p.ids.peer_ids@[(s, info.peer_id)]
            != node,
        p.ids.bootnode_peer_ids@.contains_key((s, info.peer_id))
            ==> p.ids.bootnode_peer_ids@[(s, info.peer_id)] != node,
        p.ids.client_peer_ids@.contains_key((s, info.peer_id))
            ==> p.ids.client_peer_ids@[(s, info.peer_id)] != node,
    ensures
        p.spec_validate_peer_info(s, node, overwatch, info) == Err::<(), PalletError>(PalletError::PeerIdExist),
{
}

} // verus!
