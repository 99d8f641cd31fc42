use vstd::prelude::*;

verus! {

/// A drop identifier: `{creator}||{sequence}` (see the `drop_id` module).
pub type DropId = String;

/// An account identifier, already resolved by the host.
pub type AccountId = String;

/// A public key, carried as raw bytes (a curve byte followed by 32 key
/// bytes, as the host runtime hands them over).
pub type PublicKey = Vec<u8>;

/// The identifier of an NFT series held by the minting collaborator.
pub type SeriesId = u32;

/// Per-account claim progress for one drop: `None` marks a completed
/// no-scavenger claim; `Some(keys)` lists the scavenger piece keys found so
/// far.
pub type ClaimedDropData = Option<Vec<PublicKey>>;

/// One required scavenger-hunt piece: the key that authenticates finding it,
/// a display ordinal, and a description shown to hunters.
pub struct ScavengerHuntData {
    pub key: PublicKey,
    pub id: u16,
    pub description: String,
}

/// Mathematical image of `ScavengerHuntData`.
pub struct ScavengerHuntDataV {
    pub key: Seq<u8>,
    pub id: u16,
    pub description: Seq<char>,
}

impl View for ScavengerHuntData {
    type V = ScavengerHuntDataV;

    open spec fn view(&self) -> ScavengerHuntDataV {
        ScavengerHuntDataV { key: self.key@, id: self.id, description: self.description@ }
    }
}

impl DeepView for ScavengerHuntData {
    type V = ScavengerHuntDataV;

    open spec fn deep_view(&self) -> ScavengerHuntDataV {
        self.view()
    }
}

/// NFT token metadata, passed through to the minting collaborator.
pub struct TokenMetadata {
    pub title: Option<String>,
    pub description: Option<String>,
    pub media: Option<String>,
    pub media_hash: Option<Vec<u8>>,
    pub copies: Option<u64>,
    pub issued_at: Option<u64>,
    pub expires_at: Option<u64>,
    pub starts_at: Option<u64>,
    pub updated_at: Option<u64>,
    pub extra: Option<String>,
    pub reference: Option<String>,
    pub reference_hash: Option<Vec<u8>>,
}

/// Mathematical image of `TokenMetadata`.
pub struct TokenMetadataV {
    pub title: Option<Seq<char>>,
    pub description: Option<Seq<char>>,
    pub media: Option<Seq<char>>,
    pub media_hash: Option<Seq<u8>>,
    pub copies: Option<u64>,
    pub issued_at: Option<u64>,
    pub expires_at: Option<u64>,
    pub starts_at: Option<u64>,
    pub updated_at: Option<u64>,
    pub extra: Option<Seq<char>>,
    pub reference: Option<Seq<char>>,
    pub reference_hash: Option<Seq<u8>>,
}

impl View for TokenMetadata {
    type V = TokenMetadataV;

    open spec fn view(&self) -> TokenMetadataV {
        TokenMetadataV {
            title: self.title.deep_view(),
            description: self.description.deep_view(),
            media: self.media.deep_view(),
            media_hash: self.media_hash.deep_view(),
            copies: self.copies,
            issued_at: self.issued_at,
            expires_at: self.expires_at,
            starts_at: self.starts_at,
            updated_at: self.updated_at,
            extra: self.extra.deep_view(),
            reference: self.reference.deep_view(),
            reference_hash: self.reference_hash.deep_view(),
        }
    }
}

/// Destination-chain details of a multichain drop: the chain, the receiving
/// NFT contract there, and the series to mint into.
pub struct MultichainMetadata {
    pub chain_id: u64,
    pub contract_id: String,
    pub series_id: SeriesId,
}

/// Mathematical image of `MultichainMetadata`.
pub struct MultichainMetadataV {
    pub chain_id: u64,
    pub contract_id: Seq<char>,
    pub series_id: SeriesId,
}

impl View for MultichainMetadata {
    type V = MultichainMetadataV;

    open spec fn view(&self) -> MultichainMetadataV {
        MultichainMetadataV {
            chain_id: self.chain_id,
            contract_id: self.contract_id@,
            series_id: self.series_id,
        }
    }
}

/// A token drop: claiming it pays `token_amount` fungible tokens.
pub struct TokenDropData {
    pub id: DropId,
    pub key: PublicKey,
    pub name: String,
    pub image: String,
    pub scavenger_hunt: Option<Vec<ScavengerHuntData>>,
    pub num_claimed: u64,
    pub token_amount: u128,
}

/// An NFT drop: claiming it mints into `nft_series_id`.
pub struct NFTDropData {
    pub id: DropId,
    pub key: PublicKey,
    pub name: String,
    pub image: String,
    pub scavenger_hunt: Option<Vec<ScavengerHuntData>>,
    pub num_claimed: u64,
    pub nft_metadata: TokenMetadata,
    pub nft_series_id: SeriesId,
}

/// A multichain drop: claiming it asks an external chain to mint.
pub struct MultichainDropData {
    pub id: DropId,
    pub key: PublicKey,
    pub name: String,
    pub image: String,
    pub scavenger_hunt: Option<Vec<ScavengerHuntData>>,
    pub num_claimed: u64,
    pub nft_metadata: TokenMetadata,
    pub mc_metadata: MultichainMetadata,
}

/// A claimable drop: one of the three reward kinds, sharing the common
/// fields (id, claim key, name, image, optional scavenger hunt, claim
/// counter).
pub enum DropData {
    Token(TokenDropData),
    Multichain(MultichainDropData),
    Nft(NFTDropData),
}

/// Mathematical image of `TokenDropData`.
pub struct TokenDropDataV {
    pub id: Seq<char>,
    pub key: Seq<u8>,
    pub name: Seq<char>,
    pub image: Seq<char>,
    pub scavenger_hunt: Option<Seq<ScavengerHuntDataV>>,
    pub num_claimed: u64,
    pub token_amount: u128,
}

/// Mathematical image of `NFTDropData`.
pub struct NFTDropDataV {
    pub id: Seq<char>,
    pub key: Seq<u8>,
    pub name: Seq<char>,
    pub image: Seq<char>,
    pub scavenger_hunt: Option<Seq<ScavengerHuntDataV>>,
    pub num_claimed: u64,
    pub nft_metadata: TokenMetadataV,
    pub nft_series_id: SeriesId,
}

/// Mathematical image of `MultichainDropData`.
pub struct MultichainDropDataV {
    pub id: Seq<char>,
    pub key: Seq<u8>,
    pub name: Seq<char>,
    pub image: Seq<char>,
    pub scavenger_hunt: Option<Seq<ScavengerHuntDataV>>,
    pub num_claimed: u64,
    pub nft_metadata: TokenMetadataV,
    pub mc_metadata: MultichainMetadataV,
}

/// Mathematical image of `DropData`.
pub enum DropDataV {
    Token(TokenDropDataV),
    Multichain(MultichainDropDataV),
    Nft(NFTDropDataV),
}

impl View for TokenDropData {
    type V = TokenDropDataV;

    open spec fn view(&self) -> TokenDropDataV {
        TokenDropDataV {
            id: self.id@,
            key: self.key@,
            name: self.name@,
            image: self.image@,
            scavenger_hunt: self.scavenger_hunt.deep_view(),
            num_claimed: self.num_claimed,
            token_amount: self.token_amount,
        }
    }
}

impl View for NFTDropData {
    type V = NFTDropDataV;

    open spec fn view(&self) -> NFTDropDataV {
        NFTDropDataV {
            id: self.id@,
            key: self.key@,
            name: self.name@,
            image: self.image@,
            scavenger_hunt: self.scavenger_hunt.deep_view(),
            num_claimed: self.num_claimed,
            nft_metadata: self.nft_metadata@,
            nft_series_id: self.nft_series_id,
        }
    }
}

impl View for MultichainDropData {
    type V = MultichainDropDataV;

    open spec fn view(&self) -> MultichainDropDataV {
        MultichainDropDataV {
            id: self.id@,
            key: self.key@,
            name: self.name@,
            image: self.image@,
            scavenger_hunt: self.scavenger_hunt.deep_view(),
            num_claimed: self.num_claimed,
            nft_metadata: self.nft_metadata@,
            mc_metadata: self.mc_metadata@,
        }
    }
}

impl View for DropData {
    type V = DropDataV;

    open spec fn view(&self) -> DropDataV {
        match self {
            DropData::Token(d) => DropDataV::Token(d@),
            DropData::Multichain(d) => DropDataV::Multichain(d@),
            DropData::Nft(d) => DropDataV::Nft(d@),
        }
    }
}

impl DropDataV {
    /// The drop's identifier.
    pub open spec fn id_of(self) -> Seq<char> {
        match self {
            DropDataV::Token(d) => d.id,
            DropDataV::Multichain(d) => d.id,
            DropDataV::Nft(d) => d.id,
        }
    }

    /// The drop's display name.
    pub open spec fn name_of(self) -> Seq<char> {
        match self {
            DropDataV::Token(d) => d.name,
            DropDataV::Multichain(d) => d.name,
            DropDataV::Nft(d) => d.name,
        }
    }

    /// The key a claim signature must authenticate against when no scavenger
    /// piece is supplied.
    pub open spec fn key_of(self) -> Seq<u8> {
        match self {
            DropDataV::Token(d) => d.key,
            DropDataV::Multichain(d) => d.key,
            DropDataV::Nft(d) => d.key,
        }
    }

    /// The drop's scavenger requirement, if any.
    pub open spec fn scavenger_of(self) -> Option<Seq<ScavengerHuntDataV>> {
        match self {
            DropDataV::Token(d) => d.scavenger_hunt,
            DropDataV::Multichain(d) => d.scavenger_hunt,
            DropDataV::Nft(d) => d.scavenger_hunt,
        }
    }

    /// How many validated claim attempts the drop has seen.
    pub open spec fn num_claimed_of(self) -> u64 {
        match self {
            DropDataV::Token(d) => d.num_claimed,
            DropDataV::Multichain(d) => d.num_claimed,
            DropDataV::Nft(d) => d.num_claimed,
        }
    }

    /// The same drop with its identifier replaced.
    pub open spec fn with_id(self, id: Seq<char>) -> DropDataV {
        match self {
            DropDataV::Token(d) => DropDataV::Token(TokenDropDataV { id: id, ..d }),
            DropDataV::Multichain(d) => DropDataV::Multichain(
                MultichainDropDataV { id: id, ..d },
            ),
            DropDataV::Nft(d) => DropDataV::Nft(NFTDropDataV { id: id, ..d }),
        }
    }

    /// The same drop with its claim counter replaced.
    pub open spec fn with_num_claimed(self, n: u64) -> DropDataV {
        match self {
            DropDataV::Token(d) => DropDataV::Token(TokenDropDataV { num_claimed: n, ..d }),
            DropDataV::Multichain(d) => DropDataV::Multichain(
                MultichainDropDataV { num_claimed: n, ..d },
            ),
            DropDataV::Nft(d) => DropDataV::Nft(NFTDropDataV { num_claimed: n, ..d }),
        }
    }
}

impl DropData {
    /// True exactly for the NFT kind.
    pub fn is_nft_drop(&self) -> (r: bool)
        ensures
            r == (self@ is Nft),
    {
        match self {
            DropData::Token(_) => false,
            DropData::Nft(_) => true,
            DropData::Multichain(_) => false,
        }
    }

    /// True exactly for the token kind.
    pub fn is_token_drop(&self) -> (r: bool)
        ensures
            r == (self@ is Token),
    {
        match self {
            DropData::Token(_) => true,
            DropData::Nft(_) => false,
            DropData::Multichain(_) => false,
        }
    }

    /// True exactly for the multichain kind.
    pub fn is_multichain_drop(&self) -> (r: bool)
        ensures
            r == (self@ is Multichain),
    {
        match self {
            DropData::Token(_) => false,
            DropData::Nft(_) => false,
            DropData::Multichain(_) => true,
        }
    }

    /// A borrow of the scavenger requirement, if any.
    pub fn scavenger_hunt_ref(&self) -> (r: Option<&Vec<ScavengerHuntData>>)
        ensures
            match r {
                Some(v) => self@.scavenger_of() == Some(v.deep_view()),
                None => self@.scavenger_of() is None,
            },
    {
        match self {
            DropData::Token(d) => d.scavenger_hunt.as_ref(),
            DropData::Nft(d) => d.scavenger_hunt.as_ref(),
            DropData::Multichain(d) => d.scavenger_hunt.as_ref(),
        }
    }

    /// A borrow of the drop's claim key.
    pub fn key_ref(&self) -> (r: &PublicKey)
        ensures
            r@ == self@.key_of(),
    {
        match self {
            DropData::Token(d) => &d.key,
            DropData::Nft(d) => &d.key,
            DropData::Multichain(d) => &d.key,
        }
    }

    /// The keys of the drop's required scavenger pieces, in order.
    pub fn get_scavenger_keys(&self) -> (r: Option<Vec<PublicKey>>)
        ensures
            match r {
                Some(keys) => {
                    &&& self@.scavenger_of() matches Some(hunt)
                    &&& keys.deep_view() == Seq::new(hunt.len(), |i: int| hunt[i].key)
                },
                None => self@.scavenger_of() is None,
            },
    {
        match self.scavenger_hunt_ref() {
            None => None,
            Some(hunt) => {
                let ghost huntv = self@.scavenger_of()->Some_0;
                let mut keys: Vec<PublicKey> = Vec::new();
                let n = hunt.len();
                let mut i: usize = 0;
                while i < n
                    invariant
                        n == hunt.len(),
                        i <= n,
                        huntv == hunt.deep_view(),
                        keys@.len() == i,
                        forall|j: int| 0 <= j < i ==> keys@[j]@ == huntv[j].key,
                    decreases n - i,
                {
                    keys.push(clone_bytes(&hunt[i].key));
                    proof {
                        assert(hunt[i as int]@ == huntv[i as int]);
                    }
                    i = i + 1;
                }
                proof {
                    assert(keys.deep_view() =~~= Seq::new(huntv.len(), |j: int| huntv[j].key));
                }
                Some(keys)
            },
        }
    }

    /// A copy of the scavenger requirement, if any.
    pub fn get_scavenger_data(&self) -> (r: Option<Vec<ScavengerHuntData>>)
        ensures
            match r {
                Some(v) => self@.scavenger_of() == Some(v.deep_view()),
                None => self@.scavenger_of() is None,
            },
    {
        match self.scavenger_hunt_ref() {
            None => None,
            Some(hunt) => Some(clone_hunt(hunt)),
        }
    }

    /// A copy of the drop's display name.
    pub fn get_name(&self) -> (r: String)
        ensures
            r@ == self@.name_of(),
    {
        match self {
            DropData::Token(d) => d.name.clone(),
            DropData::Nft(d) => d.name.clone(),
            DropData::Multichain(d) => d.name.clone(),
        }
    }

    /// Replaces the drop's identifier.
    pub fn set_id(&mut self, id: DropId)
        ensures
            final(self)@ == old(self)@.with_id(id@),
    {
        match self {
            DropData::Token(d) => {
                d.id = id;
            },
            DropData::Nft(d) => {
                d.id = id;
            },
            DropData::Multichain(d) => {
                d.id = id;
            },
        }
    }

    /// Increments the drop's claim counter, saturating at the top of the
    /// range.
    pub fn bump_num_claimed(&mut self)
        ensures
            final(self)@ == old(self)@.with_num_claimed(
                (if old(self)@.num_claimed_of() < u64::MAX {
                    (old(self)@.num_claimed_of() + 1) as u64
                } else {
                    old(self)@.num_claimed_of()
                }),
            ),
    {
        match self {
            DropData::Token(d) => {
                if d.num_claimed < u64::MAX {
                    d.num_claimed = d.num_claimed + 1;
                }
            },
            DropData::Nft(d) => {
                if d.num_claimed < u64::MAX {
                    d.num_claimed = d.num_claimed + 1;
                }
            },
            DropData::Multichain(d) => {
                if d.num_claimed < u64::MAX {
                    d.num_claimed = d.num_claimed + 1;
                }
            },
        }
    }

    /// A copy of the whole drop, equal to the original in every field.
    pub fn duplicate(&self) -> (r: DropData)
        ensures
            r@ == self@,
    {
        match self {
            DropData::Token(d) => DropData::Token(
                TokenDropData {
                    id: d.id.clone(),
                    key: clone_bytes(&d.key),
                    name: d.name.clone(),
                    image: d.image.clone(),
                    scavenger_hunt: clone_opt_hunt(&d.scavenger_hunt),
                    num_claimed: d.num_claimed,
                    token_amount: d.token_amount,
                },
            ),
            DropData::Nft(d) => DropData::Nft(
                NFTDropData {
                    id: d.id.clone(),
                    key: clone_bytes(&d.key),
                    name: d.name.clone(),
                    image: d.image.clone(),
                    scavenger_hunt: clone_opt_hunt(&d.scavenger_hunt),
                    num_claimed: d.num_claimed,
                    nft_metadata: d.nft_metadata.duplicate(),
                    nft_series_id: d.nft_series_id,
                },
            ),
            DropData::Multichain(d) => DropData::Multichain(
                MultichainDropData {
                    id: d.id.clone(),
                    key: clone_bytes(&d.key),
                    name: d.name.clone(),
                    image: d.image.clone(),
                    scavenger_hunt: clone_opt_hunt(&d.scavenger_hunt),
                    num_claimed: d.num_claimed,
                    nft_metadata: d.nft_metadata.duplicate(),
                    mc_metadata: MultichainMetadata {
                        chain_id: d.mc_metadata.chain_id,
                        contract_id: d.mc_metadata.contract_id.clone(),
                        series_id: d.mc_metadata.series_id,
                    },
                },
            ),
        }
    }
}

impl TokenMetadata {
    /// A copy of the metadata, equal to the original in every field.
    pub fn duplicate(&self) -> (r: TokenMetadata)
        ensures
            r@ == self@,
    {
        TokenMetadata {
            title: clone_opt_string(&self.title),
            description: clone_opt_string(&self.description),
            media: clone_opt_string(&self.media),
            media_hash: clone_opt_bytes(&self.media_hash),
            copies: self.copies,
            issued_at: self.issued_at,
            expires_at: self.expires_at,
            starts_at: self.starts_at,
            updated_at: self.updated_at,
            extra: clone_opt_string(&self.extra),
            reference: clone_opt_string(&self.reference),
            reference_hash: clone_opt_bytes(&self.reference_hash),
        }
    }
}

/// The mathematical image of a claim-progress record: `None` for a terminal
/// no-scavenger claim, otherwise the recorded piece keys in order.
pub open spec fn progress_view(c: ClaimedDropData) -> Option<Seq<Seq<u8>>> {
    match c {
        None => None,
        Some(v) => Some(Seq::new(v@.len(), |i: int| v@[i]@)),
    }
}

/// The mathematical image of an optional piece key.
pub open spec fn piece_view(p: Option<PublicKey>) -> Option<Seq<u8>> {
    match p {
        None => None,
        Some(v) => Some(v@),
    }
}

/// Whether two byte vectors hold the same bytes.
pub fn bytes_equal(a: &Vec<u8>, b: &Vec<u8>) -> (r: bool)
    ensures
        r == (a@ == b@),
{
    let n = a.len();
    if n != b.len() {
        proof {
            assert(a@ != b@);
        }
        return false;
    }
    let mut i: usize = 0;
    while i < n
        invariant
            n == a@.len(),
            n == b@.len(),
            i <= n,
            forall|j: int| 0 <= j < i ==> a@[j] == b@[j],
        decreases n - i,
    {
        if a[i] != b[i] {
            proof {
                assert(a@ != b@);
            }
            return false;
        }
        i = i + 1;
    }
    proof {
        assert(a@ =~= b@);
    }
    true
}

/// A byte-for-byte copy of a byte vector.
pub fn clone_bytes(v: &Vec<u8>) -> (r: Vec<u8>)
    ensures
        r@ == v@,
{
    let r = v.clone();
    proof {
        assert forall|i: int| 0 <= i < v@.len() implies r@[i] == v@[i] by {
            assert(cloned::<u8>(v@[i], r@[i]));
        }
        assert(r@ =~= v@);
    }
    r
}

/// A copy of an optional string, equal in content.
pub fn clone_opt_string(v: &Option<String>) -> (r: Option<String>)
    ensures
        r.deep_view() == v.deep_view(),
{
    match v {
        None => None,
        Some(s) => Some(s.clone()),
    }
}

/// A copy of an optional byte vector, equal in content.
pub fn clone_opt_bytes(v: &Option<Vec<u8>>) -> (r: Option<Vec<u8>>)
    ensures
        r.deep_view() == v.deep_view(),
{
    match v {
        None => None,
        Some(b) => Some(clone_bytes(b)),
    }
}

/// A copy of a scavenger piece, equal in content.
pub fn clone_piece(p: &ScavengerHuntData) -> (r: ScavengerHuntData)
    ensures
        r@ == p@,
{
    ScavengerHuntData { key: clone_bytes(&p.key), id: p.id, description: p.description.clone() }
}

/// A copy of a scavenger-piece list, equal in content.
pub fn clone_hunt(v: &Vec<ScavengerHuntData>) -> (r: Vec<ScavengerHuntData>)
    ensures
        r.deep_view() == v.deep_view(),
{
    let mut r: Vec<ScavengerHuntData> = Vec::new();
    let n = v.len();
    let mut i: usize = 0;
    while i < n
        invariant
            n == v@.len(),
            i <= n,
            r@.len() == i,
            forall|j: int| 0 <= j < i ==> r@[j]@ == v@[j]@,
        decreases n - i,
    {
        r.push(clone_piece(&v[i]));
        i = i + 1;
    }
    proof {
        assert(r.deep_view() =~~= v.deep_view());
    }
    r
}

/// A copy of an optional scavenger-piece list, equal in content.
pub fn clone_opt_hunt(v: &Option<Vec<ScavengerHuntData>>) -> (r: Option<Vec<ScavengerHuntData>>)
    ensures
        r.deep_view() == v.deep_view(),
{
    match v {
        None => None,
        Some(h) => Some(clone_hunt(h)),
    }
}

/// A copy of a list of piece keys, equal in content.
pub fn clone_key_list(v: &Vec<PublicKey>) -> (r: Vec<PublicKey>)
    ensures
        r@.len() == v@.len(),
        forall|m: int| 0 <= m < v@.len() ==> (#[trigger] r@[m])@ == v@[m]@,
{
    let mut r: Vec<PublicKey> = Vec::new();
    let n = v.len();
    let mut i: usize = 0;
    while i < n
        invariant
            n == v@.len(),
            i <= n,
            r@.len() == i,
            forall|j: int| 0 <= j < i ==> r@[j]@ == v@[j]@,
        decreases n - i,
    {
        r.push(clone_bytes(&v[i]));
        i = i + 1;
    }
    r
}

/// A copy of a claim-progress record, equal in content.
pub fn clone_progress(v: &ClaimedDropData) -> (r: ClaimedDropData)
    ensures
        progress_view(r) == progress_view(*v),
{
    match v {
        None => None,
        Some(keys) => Some(clone_key_list(keys)),
    }
}

} // verus!
