//! Stable widget identifiers.
use std::collections::hash_map::DefaultHasher;
use std::hash::Hasher;
use vstd::prelude::*;
use vstd::std_specs::hash::DefaultHasherAdditionalSpecFns;
use vstd::string::StringSliceAdditionalSpecFns;

verus! {

/// FNV-1a offset basis.
pub const FNV_OFFSET: u64 = 0xcbf29ce484222325;

/// FNV-1a prime.
pub const FNV_PRIME: u64 = 0x00000100000001B3;

/// One FNV-1a round: mix `value` into `state`.
pub open spec fn fnv_round(state: u64, value: u64) -> u64 {
    ((((state ^ value) as nat) * (FNV_PRIME as nat)) % 0x1_0000_0000_0000_0000nat) as u64
}

/// FNV-1a folded over a byte sequence, starting from `state`.
pub open spec fn fnv_bytes(state: u64, bytes: Seq<u8>) -> u64
    decreases bytes.len(),
{
    if bytes.len() == 0 {
        state
    } else {
        fnv_round(fnv_bytes(state, bytes.drop_last()), bytes.last() as u64)
    }
}

/// The identifier of a source location: FNV-1a over the module path bytes,
/// then the file bytes, then the line and the column.
pub open spec fn location_hash(module_name: Seq<u8>, file: Seq<u8>, line: u32, column: u32) -> u64 {
    fnv_round(
        fnv_round(fnv_bytes(fnv_bytes(FNV_OFFSET, module_name), file), line as u64),
        column as u64,
    )
}

fn fold_bytes(state: u64, bytes: &[u8]) -> (r: u64)
    ensures
        r == fnv_bytes(state, bytes@),
{
    let mut h = state;
    let mut i: usize = 0;
    while i < bytes.len()
        invariant
            i <= bytes.len(),
            h == fnv_bytes(state, bytes@.subrange(0, i as int)),
        decreases bytes.len() - i,
    {
        assert(bytes@.subrange(0, (i + 1) as int).drop_last() =~= bytes@.subrange(0, i as int));
        h = (h ^ (bytes[i] as u64)).wrapping_mul(FNV_PRIME);
        i += 1;
    }
    assert(bytes@.subrange(0, bytes.len() as int) =~= bytes@);
    h
}

/// Hashes a source location (module path, file, line, column) into a widget id.
pub fn hash(module_name: &str, file: &str, line: u32, column: u32) -> (r: u64)
    ensures
        r == location_hash(module_name.spec_bytes(), file.spec_bytes(), line, column),
{
    let mut h = fold_bytes(FNV_OFFSET, module_name.as_bytes());
    h = fold_bytes(h, file.as_bytes());
    h = (h ^ (line as u64)).wrapping_mul(FNV_PRIME);
    h = (h ^ (column as u64)).wrapping_mul(FNV_PRIME);
    h
}

/// The identifier of a source location as the runtime records it, under the
/// fixed module name `mod`.
pub fn id_from_location(file: &str, line: u32, column: u32) -> (r: u64)
    ensures
        r == location_hash(seq![109u8, 111u8, 100u8], file.spec_bytes(), line, column),
{
    let module_name = "mod";
    proof {
        reveal_strlit("mod");
        vstd::string::is_ascii_spec_bytes(module_name);
        assert(module_name.spec_bytes() =~= seq![109u8, 111u8, 100u8]);
    }
    hash(module_name, file, line, column)
}

/// The eight bytes of a `u64`, least significant first: the byte order of
/// every target the toolkit runs on.
pub open spec fn u64_bytes(v: u64) -> Seq<u8> {
    seq![
        v as u8,
        (v >> 8u64) as u8,
        (v >> 16u64) as u8,
        (v >> 24u64) as u8,
        (v >> 32u64) as u8,
        (v >> 40u64) as u8,
        (v >> 48u64) as u8,
        (v >> 56u64) as u8,
    ]
}

/// The four bytes of a `u32`, least significant first.
pub open spec fn u32_bytes(v: u32) -> Seq<u8> {
    seq![v as u8, (v >> 8u32) as u8, (v >> 16u32) as u8, (v >> 24u32) as u8]
}

fn u64_byte_vec(v: u64) -> (r: Vec<u8>)
    ensures
        r@ == u64_bytes(v),
{
    let r = vec![
        v as u8,
        (v >> 8u64) as u8,
        (v >> 16u64) as u8,
        (v >> 24u64) as u8,
        (v >> 32u64) as u8,
        (v >> 40u64) as u8,
        (v >> 48u64) as u8,
        (v >> 56u64) as u8,
    ];
    assert(r@ =~= u64_bytes(v));
    r
}

fn u32_byte_vec(v: u32) -> (r: Vec<u8>)
    ensures
        r@ == u32_bytes(v),
{
    let r = vec![v as u8, (v >> 8u32) as u8, (v >> 16u32) as u8, (v >> 24u32) as u8];
    assert(r@ =~= u32_bytes(v));
    r
}

/// A value that can extend a widget identifier: it feeds the hasher the same
/// writes as its standard `Hash` implementation.
pub trait IdPart {
    /// The byte strings written into the hasher, in order.
    spec fn id_writes(&self) -> Seq<Seq<u8>>;

    fn write_id(&self, hasher: &mut DefaultHasher)
        ensures
            final(hasher)@ == old(hasher)@ + self.id_writes(),
    ;
}

impl IdPart for u64 {
    open spec fn id_writes(&self) -> Seq<Seq<u8>> {
        seq![u64_bytes(*self)]
    }

    fn write_id(&self, hasher: &mut DefaultHasher) {
        let bytes = u64_byte_vec(*self);
        hasher.write(bytes.as_slice());
        assert(final(hasher)@ =~= old(hasher)@ + self.id_writes());
    }
}

impl IdPart for u32 {
    open spec fn id_writes(&self) -> Seq<Seq<u8>> {
        seq![u32_bytes(*self)]
    }

    fn write_id(&self, hasher: &mut DefaultHasher) {
        let bytes = u32_byte_vec(*self);
        hasher.write(bytes.as_slice());
        assert(final(hasher)@ =~= old(hasher)@ + self.id_writes());
    }
}

impl IdPart for usize {
    open spec fn id_writes(&self) -> Seq<Seq<u8>> {
        if usize::BITS == 64 {
            seq![u64_bytes(*self as u64)]
        } else {
            seq![u32_bytes(*self as u32)]
        }
    }

    fn write_id(&self, hasher: &mut DefaultHasher) {
        let bytes = if usize::BITS == 64 {
            u64_byte_vec(*self as u64)
        } else {
            u32_byte_vec(*self as u32)
        };
        hasher.write(bytes.as_slice());
        assert(final(hasher)@ =~= old(hasher)@ + self.id_writes());
    }
}

impl<'a> IdPart for &'a str {
    /// A string writes its bytes, then the terminator byte `0xff`.
    open spec fn id_writes(&self) -> Seq<Seq<u8>> {
        seq![(*self).spec_bytes(), seq![0xffu8]]
    }

    fn write_id(&self, hasher: &mut DefaultHasher) {
        hasher.write(self.as_bytes());
        let terminator: Vec<u8> = vec![0xffu8];
        hasher.write(terminator.as_slice());
        assert(terminator@ =~= seq![0xffu8]);
        assert(final(hasher)@ =~= old(hasher)@ + self.id_writes());
    }
}

/// Derives a child identifier from a parent identifier and a key: the
/// standard hasher fed the parent's bytes, then the key's.
pub fn combine_id<T: IdPart>(id: u64, child_id: T) -> (r: u64)
    ensures
        r == DefaultHasher::spec_finish(seq![u64_bytes(id)] + child_id.id_writes()),
{
    let mut s = DefaultHasher::new();
    id.write_id(&mut s);
    child_id.write_id(&mut s);
    assert(s@ =~= seq![u64_bytes(id)] + child_id.id_writes());
    s.finish()
}

} // verus!
