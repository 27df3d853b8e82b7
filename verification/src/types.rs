//! Identifiers and records shared by the three stores.

use vstd::prelude::*;

verus! {

/// A 32-byte content hash.
#[derive(Clone, Copy, Debug)]
pub struct ContentHash {
    pub data: [u8; 32],
}

/// A 16-byte context identifier.
#[derive(Clone, Copy, Debug)]
pub struct Context {
    pub data: [u8; 16],
}

/// A partition is addressed by the context identifier of its repository.
pub type Partition = Context;

/// A repository identifier.
pub type RepositoryId = Context;

/// A branch identifier.
pub type BranchId = Context;

impl View for ContentHash {
    type V = Seq<u8>;

    open spec fn view(&self) -> Seq<u8> {
        self.data@
    }
}

impl View for Context {
    type V = Seq<u8>;

    open spec fn view(&self) -> Seq<u8> {
        self.data@
    }
}

/// A hash is determined by its bytes.
pub proof fn lemma_hash_bytes(a: ContentHash, b: ContentHash)
    ensures
        a@ == b@ <==> a == b,
{
    if a@ == b@ {
        assert(a.data =~= b.data);
    }
}

/// A context is determined by its bytes.
pub proof fn lemma_context_bytes(a: Context, b: Context)
    ensures
        a@ == b@ <==> a == b,
{
    if a@ == b@ {
        assert(a.data =~= b.data);
    }
}

impl PartialEq for ContentHash {
    fn eq(&self, other: &Self) -> (r: bool) {
        let mut i: usize = 0;
        while i < 32
            invariant
                0 <= i <= 32,
                forall|j: int| 0 <= j < i ==> self.data@[j] == other.data@[j],
            decreases 32 - i,
        {
            if self.data[i] != other.data[i] {
                return false;
            }
            i = i + 1;
        }
        assert(self.data =~= other.data);
        true
    }
}

impl vstd::std_specs::cmp::PartialEqSpecImpl for ContentHash {
    open spec fn obeys_eq_spec() -> bool {
        true
    }

    open spec fn eq_spec(&self, other: &Self) -> bool {
        self == other
    }
}

impl Eq for ContentHash {

}

impl PartialEq for Context {
    fn eq(&self, other: &Self) -> (r: bool) {
        let mut i: usize = 0;
        while i < 16
            invariant
                0 <= i <= 16,
                forall|j: int| 0 <= j < i ==> self.data@[j] == other.data@[j],
            decreases 16 - i,
        {
            if self.data[i] != other.data[i] {
                return false;
            }
            i = i + 1;
        }
        assert(self.data =~= other.data);
        true
    }
}

impl vstd::std_specs::cmp::PartialEqSpecImpl for Context {
    open spec fn obeys_eq_spec() -> bool {
        true
    }

    open spec fn eq_spec(&self, other: &Self) -> bool {
        self == other
    }
}

impl Eq for Context {

}

/// The hash whose bytes are all zero, which stands for "no value".
pub open spec fn zero_hash() -> ContentHash {
    ContentHash { data: vstd::array::spec_array_fill_for_copy_type::<u8, 32>(0) }
}

/// The context whose bytes are all zero.
pub open spec fn zero_context() -> Context {
    Context { data: vstd::array::spec_array_fill_for_copy_type::<u8, 16>(0) }
}

impl Default for ContentHash {
    /// The all-zero hash.
    fn default() -> (hash: Self)
        ensures
            hash == zero_hash(),
    {
        ContentHash { data: [0u8; 32] }
    }
}

impl Default for Context {
    /// The all-zero context.
    fn default() -> (context: Self)
        ensures
            context == zero_context(),
    {
        Context { data: [0u8; 16] }
    }
}

/// The bytes of the zero hash are zero, and no other hash has only zero bytes.
pub proof fn lemma_zero_hash(hash: ContentHash)
    ensures
        hash == zero_hash() <==> (forall|i: int| 0 <= i < 32 ==> hash@[i] == 0),
{
    if forall|i: int| 0 <= i < 32 ==> hash@[i] == 0 {
        assert(hash.data =~= zero_hash().data);
    }
}

impl ContentHash {
    /// Whether every byte is zero.
    pub fn is_zero(&self) -> (zero: bool)
        ensures
            zero == (*self == zero_hash()),
    {
        *self == ContentHash::default()
    }

    /// The bytes of the hash.
    pub fn to_vec(&self) -> (bytes: Vec<u8>)
        ensures
            bytes@ == self@,
    {
        let mut bytes: Vec<u8> = Vec::new();
        let mut i: usize = 0;
        while i < 32
            invariant
                0 <= i <= 32,
                bytes@ == self@.take(i as int),
            decreases 32 - i,
        {
            bytes.push(self.data[i]);
            i = i + 1;
            assert(self@.take(i as int) =~= self@.take(i - 1).push(self@[i - 1]));
        }
        assert(self@.take(32) =~= self@);
        bytes
    }

    /// The hash with the given bytes; `None` unless there are exactly 32 of them.
    pub fn from_slice(bytes: &[u8]) -> (hash: Option<ContentHash>)
        ensures
            hash is Some <==> bytes@.len() == 32,
            hash matches Some(h) ==> h@ == bytes@,
    {
        if bytes.len() != 32 {
            return None;
        }
        let mut data: [u8; 32] = [0u8; 32];
        let mut i: usize = 0;
        while i < 32
            invariant
                0 <= i <= 32,
                bytes@.len() == 32,
                forall|j: int| 0 <= j < i ==> data@[j] == bytes@[j],
            decreases 32 - i,
        {
            data[i] = bytes[i];
            i = i + 1;
        }
        assert(data@ =~= bytes@);
        Some(ContentHash { data })
    }
}

impl Context {
    /// The bytes of the context.
    pub fn to_vec(&self) -> (bytes: Vec<u8>)
        ensures
            bytes@ == self@,
    {
        let mut bytes: Vec<u8> = Vec::new();
        let mut i: usize = 0;
        while i < 16
            invariant
                0 <= i <= 16,
                bytes@ == self@.take(i as int),
            decreases 16 - i,
        {
            bytes.push(self.data[i]);
            i = i + 1;
            assert(self@.take(i as int) =~= self@.take(i - 1).push(self@[i - 1]));
        }
        assert(self@.take(16) =~= self@);
        bytes
    }

    /// The context with the given bytes; `None` unless there are exactly 16 of them.
    pub fn from_slice(bytes: &[u8]) -> (context: Option<Context>)
        ensures
            context is Some <==> bytes@.len() == 16,
            context matches Some(c) ==> c@ == bytes@,
    {
        if bytes.len() != 16 {
            return None;
        }
        let mut data: [u8; 16] = [0u8; 16];
        let mut i: usize = 0;
        while i < 16
            invariant
                0 <= i <= 16,
                bytes@.len() == 16,
                forall|j: int| 0 <= j < i ==> data@[j] == bytes@[j],
            decreases 16 - i,
        {
            data[i] = bytes[i];
            i = i + 1;
        }
        assert(data@ =~= bytes@);
        Some(Context { data })
    }
}

/// Where a fragment lives: its content hash and the context it belongs to.
#[derive(Clone, Copy, Debug)]
pub struct Address {
    pub hash: ContentHash,
    pub context: Context,
}

impl PartialEq for Address {
    fn eq(&self, other: &Self) -> (r: bool) {
        self.hash == other.hash && self.context == other.context
    }
}

impl vstd::std_specs::cmp::PartialEqSpecImpl for Address {
    open spec fn obeys_eq_spec() -> bool {
        true
    }

    open spec fn eq_spec(&self, other: &Self) -> bool {
        self == other
    }
}

impl Eq for Address {

}

/// The address of `hash` in the zero context.
pub open spec fn zero_context_address(hash: ContentHash) -> Address {
    Address { hash, context: zero_context() }
}

impl Address {
    /// The address of `hash` in the zero context.
    pub fn zero_context_hash(hash: ContentHash) -> (address: Address)
        ensures
            address == zero_context_address(hash),
    {
        Address { hash, context: Context::default() }
    }
}

/// What is known of a fragment besides its payload.
#[derive(Clone, Copy, Debug, PartialEq, Eq, Structural)]
pub struct Fragment {
    pub flags: u32,
    pub size_payload: u32,
    pub size_content: u64,
}

/// The number of bytes that a fragment header takes up in front of a payload.
pub const FRAGMENT_HEADER_SIZE: usize = 16;

/// The fragment with no flags and no contents.
pub open spec fn empty_fragment() -> Fragment {
    Fragment { flags: 0, size_payload: 0, size_content: 0 }
}

impl Default for Fragment {
    fn default() -> (fragment: Self)
        ensures
            fragment == empty_fragment(),
    {
        Fragment { flags: 0, size_payload: 0, size_content: 0 }
    }
}

/// The bits of `Fragment::flags` that the stores act on.
///
/// The numeric values belong to the host's fragment format and are supplied by it.
#[derive(Clone, Copy, Debug, PartialEq, Eq, Structural)]
pub struct FragmentFlags {
    /// Set while a payload is being obliterated.
    pub payload_obliterating: u32,
    /// Set once a payload has been obliterated.
    pub payload_obliterated: u32,
    /// Covers both stages of obliteration.
    pub payload_obliteration: u32,
    /// Set where the payload is a list of references to other fragments.
    pub payload_fragmented: u32,
}

impl FragmentFlags {
    /// No two of the flags overlap, and one of them covers both stages of obliteration.
    pub open spec fn well_formed(self) -> bool {
        &&& self.payload_obliterating != 0
        &&& self.payload_obliterated != 0
        &&& self.payload_fragmented != 0
        &&& self.payload_obliterating & self.payload_obliterated == 0
        &&& self.payload_obliteration == self.payload_obliterating | self.payload_obliterated
        &&& self.payload_fragmented & self.payload_obliteration == 0
    }
}

/// How closely a stored fragment matches a requested address.
#[derive(Clone, Copy, Debug, PartialEq, Eq, Structural)]
pub enum StoreMatch {
    /// Nothing stored under the hash.
    MatchNone,
    /// The hash is stored, in some repository.
    MatchHash,
    /// The hash is stored in the repository, in some context.
    MatchPartition,
    /// Hash, repository and context are all as requested.
    MatchFull,
}

impl StoreMatch {
    /// The next weaker match.
    pub open spec fn spec_prev(self) -> Option<StoreMatch> {
        match self {
            StoreMatch::MatchFull => Some(StoreMatch::MatchPartition),
            StoreMatch::MatchPartition => Some(StoreMatch::MatchHash),
            StoreMatch::MatchHash => Some(StoreMatch::MatchNone),
            StoreMatch::MatchNone => None,
        }
    }

    /// The next weaker match, if there is one.
    pub fn prev(&self) -> (weaker: Option<StoreMatch>)
        ensures
            weaker == self.spec_prev(),
    {
        match *self {
            StoreMatch::MatchFull => Some(StoreMatch::MatchPartition),
            StoreMatch::MatchPartition => Some(StoreMatch::MatchHash),
            StoreMatch::MatchHash => Some(StoreMatch::MatchNone),
            StoreMatch::MatchNone => None,
        }
    }
}

/// The kind of a mutable key: the byte that marks the keys of that kind, and whether it
/// is the kind that stands for keys without one.
#[derive(Clone, Copy, Debug, PartialEq, Eq, Structural)]
pub struct KeyType {
    pub code: u8,
    pub untyped: bool,
}

/// A hash and a context are taken apart into their bytes and made of them again, byte for byte
/// and in order; nothing else is taken for one.
pub proof fn bytes_kept(
    hash: ContentHash,
    context: Context,
    hash_bytes: Vec<u8>,
    context_bytes: Vec<u8>,
    bytes: &[u8],
    made_hash: Option<ContentHash>,
    made_context: Option<Context>,
)
    requires
        call_ensures(ContentHash::to_vec, (&hash,), hash_bytes),
        call_ensures(Context::to_vec, (&context,), context_bytes),
        call_ensures(ContentHash::from_slice, (bytes,), made_hash),
        call_ensures(Context::from_slice, (bytes,), made_context),
    ensures
        hash_bytes@ == hash.data@,
        context_bytes@ == context.data@,
        made_hash is Some <==> bytes@.len() == 32,
        made_context is Some <==> bytes@.len() == 16,
        made_hash matches Some(made) ==> made.data@ == bytes@,
        made_context matches Some(made) ==> made.data@ == bytes@,
        bytes@ == hash_bytes@ ==> made_hash == Some(hash),
        bytes@ == context_bytes@ ==> made_context == Some(context),
{
    if let Some(made) = made_hash {
        lemma_hash_bytes(made, hash);
    }
    if let Some(made) = made_context {
        lemma_context_bytes(made, context);
    }
}

/// The zero hash and the zero context have zero bytes only, and no other hash counts as zero.
pub proof fn zero_told(hash: ContentHash, zero: bool, address: Address, i: int)
    requires
        call_ensures(ContentHash::is_zero, (&hash,), zero),
        call_ensures(Address::zero_context_hash, (hash,), address),
        0 <= i < 32,
    ensures
        zero <==> (forall|j: int| 0 <= j < 32 ==> hash.data@[j] == 0),
        zero_hash().data@[i] == 0,
        address.hash == hash,
        i < 16 ==> address.context.data@[i] == 0,
{
    lemma_zero_hash(hash);
    lemma_zero_hash(zero_hash());
}

} // verus!
