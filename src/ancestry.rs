use crate::bytes::bytes32_eq;
use crate::error::FinalityError;
use vstd::prelude::*;

verus! {

/// Byte sequences of a list of (header hash, parent hash) links.
pub open spec fn links_view(links: Seq<([u8; 32], [u8; 32])>) -> Seq<(Seq<u8>, Seq<u8>)> {
    links.map_values(|l: ([u8; 32], [u8; 32])| (l.0@, l.1@))
}

/// The parent that `links` records for `hash`: the last link for it wins.
pub open spec fn parent_in(links: Seq<(Seq<u8>, Seq<u8>)>, hash: Seq<u8>) -> Option<Seq<u8>>
    decreases links.len(),
{
    if links.len() == 0 {
        None
    } else if links.last().0 == hash {
        Some(links.last().1)
    } else {
        parent_in(links.drop_last(), hash)
    }
}

/// Whether following parent links from `from` reaches `to` in at most `hops` steps.
pub open spec fn reaches(links: Seq<(Seq<u8>, Seq<u8>)>, from: Seq<u8>, to: Seq<u8>, hops: nat) -> bool
    decreases hops,
{
    if from == to {
        true
    } else if hops == 0 {
        false
    } else {
        match parent_in(links, from) {
            Some(p) => reaches(links, p, to, (hops - 1) as nat),
            None => false,
        }
    }
}

/// Every block is confirmed as its own descendant, in zero hops.
pub proof fn lemma_block_reaches_itself(links: Seq<(Seq<u8>, Seq<u8>)>, hash: Seq<u8>, hops: nat)
    ensures
        reaches(links, hash, hash, hops),
{
}

/// A lookup from header hash to parent hash, built from encoded headers.
pub struct AncestryMap {
    /// (header hash, parent hash), in the order the headers came.
    pub links: Vec<([u8; 32], [u8; 32])>,
}

impl AncestryMap {
    pub open spec fn view(&self) -> Seq<(Seq<u8>, Seq<u8>)> {
        links_view(self.links@)
    }

    /// The parent hash recorded for `hash`, if any.
    pub fn parent(&self, hash: &[u8; 32]) -> (r: Option<[u8; 32]>)
        ensures
            match r {
                Some(p) => parent_in(self.view(), hash@) == Some(p@),
                None => parent_in(self.view(), hash@) is None,
            },
    {
        let mut i: usize = self.links.len();
        proof {
            assert(self.view().subrange(0, i as int) =~= self.view());
        }
        while i > 0
            invariant
                i <= self.links@.len(),
                parent_in(self.view(), hash@) == parent_in(self.view().subrange(0, i as int), hash@),
            decreases i,
        {
            let (child, parent) = self.links[i - 1];
            proof {
                let v = self.view().subrange(0, i as int);
                assert(v.drop_last() =~= self.view().subrange(0, i - 1));
            }
            if bytes32_eq(&child, hash) {
                return Some(parent);
            }
            i = i - 1;
        }
        None
    }
}

/// The links that headers with the given content hashes give: each header's
/// parent hash is its first 32 bytes.
pub open spec fn header_links(headers: Seq<Vec<u8>>, hashes: Seq<[u8; 32]>) -> Seq<(Seq<u8>, Seq<u8>)> {
    Seq::new(hashes.len(), |i: int| (hashes[i]@, headers[i]@.subrange(0, 32)))
}

/// Whether the headers and their content hashes can form an ancestry map:
/// one hash per header, and every header long enough to hold a parent hash.
pub open spec fn headers_well_formed(headers: Seq<Vec<u8>>, hashes: Seq<[u8; 32]>) -> bool {
    &&& headers.len() == hashes.len()
    &&& forall|i: int| 0 <= i < headers.len() ==> (#[trigger] headers[i])@.len() >= 32
}

/// Builds the map from each header's content hash (`header_hashes[i]` for
/// `encoded_headers[i]`) to the parent hash in its first 32 bytes; where a
/// hash occurs twice, the later header wins.
pub fn build_ancestry_map(encoded_headers: &Vec<Vec<u8>>, header_hashes: &Vec<[u8; 32]>) -> (r:
    Result<AncestryMap, FinalityError>)
    ensures
        r is Ok <==> headers_well_formed(encoded_headers@, header_hashes@),
        r is Err ==> r == Err::<AncestryMap, FinalityError>(FinalityError::MalformedAncestry),
        match r {
            Ok(m) => m.view() == header_links(encoded_headers@, header_hashes@),
            Err(_) => true,
        },
{
    let n: usize = header_hashes.len();
    if encoded_headers.len() != n {
        return Err(FinalityError::MalformedAncestry);
    }
    let mut links: Vec<([u8; 32], [u8; 32])> = Vec::new();
    let mut i: usize = 0;
    while i < n
        invariant
            0 <= i <= n,
            n == header_hashes@.len(),
            n == encoded_headers@.len(),
            forall|k: int| 0 <= k < i ==> (#[trigger] encoded_headers@[k])@.len() >= 32,
            links_view(links@) =~= header_links(
                encoded_headers@.subrange(0, i as int),
                header_hashes@.subrange(0, i as int),
            ),
        decreases n - i,
    {
        let header = &encoded_headers[i];
        if header.len() < 32 {
            return Err(FinalityError::MalformedAncestry);
        }
        let mut parent: [u8; 32] = [0u8; 32];
        let mut j: usize = 0;
        while j < 32
            invariant
                0 <= j <= 32,
                header@.len() >= 32,
                forall|k: int| 0 <= k < j ==> parent@[k] == header@[k],
            decreases 32 - j,
        {
            parent[j] = header[j];
            j = j + 1;
        }
        assert(parent@ =~= header@.subrange(0, 32));
        let ghost old_links = links@;
        links.push((header_hashes[i], parent));
        proof {
            let hs = encoded_headers@.subrange(0, i + 1);
            let ks = header_hashes@.subrange(0, i + 1);
            assert(links@ == old_links.push((header_hashes@[i as int], parent)));
            assert(links_view(old_links).len() == old_links.len());
            assert(old_links.len() == i);
            assert(links_view(links@).len() == i + 1);
            assert(header_links(hs, ks).len() == i + 1);
            assert forall|k: int| 0 <= k < i + 1 implies links_view(links@)[k] == header_links(
                hs,
                ks,
            )[k] by {
                if k < i {
                    assert(links_view(old_links)[k] == header_links(
                        encoded_headers@.subrange(0, i as int),
                        header_hashes@.subrange(0, i as int),
                    )[k]);
                } else {
                    assert(links@[k] == (header_hashes@[i as int], parent));
                    assert(hs[k] == encoded_headers@[i as int]);
                }
            }
            assert(links_view(links@) =~= header_links(hs, ks));
        }
        i = i + 1;
    }
    proof {
        assert(encoded_headers@.subrange(0, n as int) =~= encoded_headers@);
        assert(header_hashes@.subrange(0, n as int) =~= header_hashes@);
    }
    Ok(AncestryMap { links })
}

/// Whether `child_hash` descends from (or is) `root_hash`, following parent
/// links in `ancestry_map`. The walk takes at most as many hops as the map has
/// links, which any chain of distinct hashes fits in, so a cycle ends the walk
/// as "not confirmed".
pub fn confirm_ancestry(child_hash: &[u8; 32], root_hash: &[u8; 32], ancestry_map: &AncestryMap) -> (r:
    bool)
    ensures
        r == reaches(ancestry_map.view(), child_hash@, root_hash@, ancestry_map.view().len()),
{
    let bound: usize = ancestry_map.links.len();
    let mut current: [u8; 32] = *child_hash;
    let mut hops: usize = 0;
    loop
        invariant
            hops <= bound,
            bound == ancestry_map.view().len(),
            reaches(ancestry_map.view(), child_hash@, root_hash@, bound as nat) == reaches(
                ancestry_map.view(),
                current@,
                root_hash@,
                (bound - hops) as nat,
            ),
        decreases bound - hops,
    {
        if bytes32_eq(&current, root_hash) {
            return true;
        }
        if hops == bound {
            return false;
        }
        match ancestry_map.parent(&current) {
            Some(p) => {
                current = p;
                hops = hops + 1;
            },
            None => {
                return false;
            },
        }
    }
}

} // verus!
