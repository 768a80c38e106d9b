//! The flags of a memory mapping: as the user asks for it, and as the page table keeps it.

use vstd::prelude::*;

verus! {

/// Page can be read.
pub const PROT_READ: i32 = 1;

/// Page can be written.
pub const PROT_WRITE: i32 = 2;

/// Page can be executed.
pub const PROT_EXEC: i32 = 4;

/// Share changes. Accepted and not acted on: every mapping is a copy of its own.
pub const MAP_SHARED: i32 = 0x1;

/// Changes private; copy pages on write. Accepted and not acted on: every mapping is a copy.
pub const MAP_PRIVATE: i32 = 0x2;

/// Map address must be exactly as requested, no matter whether it is available.
pub const MAP_FIXED: i32 = 0x10;

/// Don't use a file.
pub const MAP_ANONYMOUS: i32 = 0x20;

/// Don't check for reservations. Accepted and not acted on.
pub const MAP_NORESERVE: i32 = 0x4000;

/// Allocation is for a stack. Accepted and not acted on.
pub const MAP_STACK: i32 = 0x20000;

/// All of the `MAP_` flags.
pub const MAP_ALL: i32 = 0x24033;

/// Whether all bits of `flag` are set in `bits`.
pub open spec fn flag_set(bits: i32, flag: i32) -> bool {
    bits & flag == flag
}

/// The permissions with the given bits, if each of them is a permission.
pub open spec fn known_prot(bits: i32) -> Option<MmapProt> {
    if 0 <= bits < 8 {
        Some(MmapProt { bits })
    } else {
        None
    }
}

/// The kinds of mapping among the given bits.
pub open spec fn known_kinds(bits: i32) -> MmapFlags {
    MmapFlags { bits: bits & MAP_ALL }
}

/// The flags that are in either set.
pub open spec fn joined(a: MappingFlags, b: MappingFlags) -> MappingFlags {
    MappingFlags { bits: a.bits | b.bits }
}

/// The flags, with those to read and write, for the user, lent to them.
pub open spec fn lent(flags: MappingFlags) -> MappingFlags {
    MappingFlags { bits: flags.bits | 11 }
}

/// Permissions are known exactly if they are made of those to read, to write and to execute,
/// and then they are kept as they are. Of the kinds of mapping, those that there are are kept,
/// and no others.
pub proof fn law_known_bits_are_kept(bits: i32)
    ensures
        known_prot(bits) is Some <==> (bits & 1) | (bits & 2) | (bits & 4) == bits,
        known_prot(bits) matches Some(prot) ==> prot.bits == bits,
        known_kinds(bits).bits & 0x24033 == bits & 0x24033,
        known_kinds(bits).bits | 0x24033 == 0x24033,
{
    assert((bits & 1) | (bits & 2) | (bits & 4) == bits <==> 0 <= bits && bits < 8)
        by (bit_vector);
    assert((bits & 0x24033) & 0x24033 == bits & 0x24033 && (bits & 0x24033) | 0x24033 == 0x24033)
        by (bit_vector);
}

/// Joining looks at each bit by itself. Lending adds the permissions to read and write, for the
/// user, and touches no other bit.
pub proof fn law_joining_is_bitwise(a: MappingFlags, b: MappingFlags, mask: usize)
    ensures
        joined(a, b).bits & mask == (a.bits & mask) | (b.bits & mask),
        lent(a).bits & 1 != 0 && lent(a).bits & 2 != 0 && lent(a).bits & 8 != 0,
        mask & 11 == 0 ==> lent(a).bits & mask == a.bits & mask,
{
    let x = a.bits;
    let y = b.bits;
    assert((x | y) & mask == (x & mask) | (y & mask)) by (bit_vector);
    assert((x | 11) & 1 != 0 && (x | 11) & 2 != 0 && (x | 11) & 8 != 0 && (mask & 11 == 0 ==> (x
        | 11) & mask == x & mask)) by (bit_vector);
}

/// Permissions asked of a mapping, a set of `PROT_` flags.
#[derive(Clone, Copy, Debug, PartialEq, Eq, Structural)]
pub struct MmapProt {
    pub bits: i32,
}

impl MmapProt {
    /// The set with the given bits, if each of them is a `PROT_` flag.
    pub fn from_bits(bits: i32) -> (r: Option<MmapProt>)
        ensures
            r == if 0 <= bits < 8 {
                Some(MmapProt { bits })
            } else {
                None
            },
            r == known_prot(bits),
    {
        assert(bits & !7i32 == 0 <==> 0 <= bits && bits < 8) by (bit_vector);
        if bits & !7i32 == 0 {
            Some(MmapProt { bits })
        } else {
            None
        }
    }

    /// Whether all bits of `flag` are in the set.
    pub fn contains(&self, flag: i32) -> (r: bool)
        ensures
            r == flag_set(self.bits, flag),
    {
        self.bits & flag == flag
    }
}

/// Kinds of mapping, a set of `MAP_` flags.
#[derive(Clone, Copy, Debug, PartialEq, Eq, Structural)]
pub struct MmapFlags {
    pub bits: i32,
}

impl MmapFlags {
    /// The set of the `MAP_` flags among the given bits; other bits are dropped.
    pub fn from_bits_truncate(bits: i32) -> (r: MmapFlags)
        ensures
            r.bits == bits & MAP_ALL,
            r == known_kinds(bits),
            forall|flag: i32| flag & MAP_ALL == flag ==> #[trigger] flag_set(r.bits, flag) == flag_set(
                bits,
                flag,
            ),
    {
        proof {
            assert forall|flag: i32| flag & MAP_ALL == flag implies #[trigger] flag_set(
                bits & MAP_ALL,
                flag,
            ) == flag_set(bits, flag) by {
                let all = MAP_ALL;
                assert((bits & all) & flag == bits & (flag & all)) by (bit_vector);
            }
        }
        MmapFlags { bits: bits & MAP_ALL }
    }

    /// Whether all bits of `flag` are in the set.
    pub fn contains(&self, flag: i32) -> (r: bool)
        ensures
            r == flag_set(self.bits, flag),
    {
        self.bits & flag == flag
    }
}

/// `page_table_entry::MappingFlags::READ`, "the memory is readable": bit 0.
#[verifier::external_body]
fn read_bits() -> (bits: usize)
    ensures
        bits == 1,
{
    page_table_entry::MappingFlags::READ.bits()
}

/// `page_table_entry::MappingFlags::WRITE`, "the memory is writable": bit 1.
#[verifier::external_body]
fn write_bits() -> (bits: usize)
    ensures
        bits == 2,
{
    page_table_entry::MappingFlags::WRITE.bits()
}

/// `page_table_entry::MappingFlags::EXECUTE`, "the memory is executable": bit 2.
#[verifier::external_body]
fn execute_bits() -> (bits: usize)
    ensures
        bits == 4,
{
    page_table_entry::MappingFlags::EXECUTE.bits()
}

/// `page_table_entry::MappingFlags::USER`, "the memory is user accessible": bit 3.
#[verifier::external_body]
fn user_bits() -> (bits: usize)
    ensures
        bits == 8,
{
    page_table_entry::MappingFlags::USER.bits()
}

/// Permissions of a mapping as a page table keeps them.
#[derive(Clone, Copy, Debug, PartialEq, Eq, Structural)]
pub struct MappingFlags {
    pub bits: usize,
}

/// The flags of memory that a user may access, with the given further permissions.
pub open spec fn user_flags(read: bool, write: bool, execute: bool) -> MappingFlags {
    MappingFlags {
        bits: (8 + (if read {
            1int
        } else {
            0
        }) + (if write {
            2int
        } else {
            0
        }) + (if execute {
            4int
        } else {
            0
        })) as usize,
    }
}

impl MappingFlags {
    /// Whether the memory is readable.
    pub open spec fn reads(self) -> bool {
        self.bits & 1 != 0
    }

    /// Whether the memory is writable.
    pub open spec fn writes(self) -> bool {
        self.bits & 2 != 0
    }

    /// Whether the memory is executable.
    pub open spec fn executes(self) -> bool {
        self.bits & 4 != 0
    }

    /// Whether the memory is user accessible.
    pub open spec fn is_user(self) -> bool {
        self.bits & 8 != 0
    }

    /// The memory is readable.
    pub fn read() -> (r: Self)
        ensures
            r.bits == 1,
    {
        MappingFlags { bits: read_bits() }
    }

    /// The memory is writable.
    pub fn write() -> (r: Self)
        ensures
            r.bits == 2,
    {
        MappingFlags { bits: write_bits() }
    }

    /// The memory is executable.
    pub fn execute() -> (r: Self)
        ensures
            r.bits == 4,
    {
        MappingFlags { bits: execute_bits() }
    }

    /// The memory is user accessible.
    pub fn user() -> (r: Self)
        ensures
            r.bits == 8,
    {
        MappingFlags { bits: user_bits() }
    }

    /// The flags that are in either set.
    pub fn union(self, other: Self) -> (r: Self)
        ensures
            r.bits == self.bits | other.bits,
            r == joined(self, other),
    {
        MappingFlags { bits: self.bits | other.bits }
    }
}

/// The permissions asked for, on memory that the user may access.
impl From<MmapProt> for MappingFlags {
    fn from(value: MmapProt) -> (r: Self) {
        proof {
            lemma_unions();
        }
        let mut flags = MappingFlags::user();
        if value.contains(PROT_READ) {
            flags = flags.union(MappingFlags::read());
        }
        if value.contains(PROT_WRITE) {
            flags = flags.union(MappingFlags::write());
        }
        if value.contains(PROT_EXEC) {
            flags = flags.union(MappingFlags::execute());
        }
        flags
    }
}

impl vstd::std_specs::convert::FromSpecImpl<MmapProt> for MappingFlags {
    open spec fn obeys_from_spec() -> bool {
        true
    }

    open spec fn from_spec(value: MmapProt) -> Self {
        user_flags(
            flag_set(value.bits, PROT_READ),
            flag_set(value.bits, PROT_WRITE),
            flag_set(value.bits, PROT_EXEC),
        )
    }
}

proof fn lemma_unions()
    ensures
        8usize | 1usize == 9usize,
        8usize | 2usize == 10usize,
        8usize | 4usize == 12usize,
        9usize | 2usize == 11usize,
        9usize | 4usize == 13usize,
        10usize | 4usize == 14usize,
        11usize | 4usize == 15usize,
{
    assert(8usize | 1usize == 9usize) by (bit_vector);
    assert(8usize | 2usize == 10usize) by (bit_vector);
    assert(8usize | 4usize == 12usize) by (bit_vector);
    assert(9usize | 2usize == 11usize) by (bit_vector);
    assert(9usize | 4usize == 13usize) by (bit_vector);
    assert(10usize | 4usize == 14usize) by (bit_vector);
    assert(11usize | 4usize == 15usize) by (bit_vector);
}

/// The permissions to hold while the kernel fills a mapping: those that it will end up with,
/// and those to read and write.
pub fn filling_flags(flags: MappingFlags) -> (r: MappingFlags)
    ensures
        r.bits == flags.bits | 11,
        r == lent(flags),
        forall|read: bool, write: bool, execute: bool| flags == #[trigger] user_flags(
            read,
            write,
            execute,
        ) ==> r == user_flags(true, true, execute),
{
    let b = flags.bits;
    assert(((b | 1usize) | 2usize) | 8usize == b | 11usize) by (bit_vector);
    assert(8 <= b && b < 12 ==> b | 11usize == 11usize) by (bit_vector);
    assert(12 <= b && b < 16 ==> b | 11usize == 15usize) by (bit_vector);
    flags.union(MappingFlags::read()).union(MappingFlags::write()).union(MappingFlags::user())
}

/// Flags are set where adding them changes nothing; a flag of one bit is set where the bit is.
pub proof fn law_set_flags_add_nothing(bits: i32, flag: i32)
    ensures
        flag_set(bits, flag) <==> bits | flag == bits,
        flag_set(bits, 1) <==> bits & 1 != 0,
        flag_set(bits, 2) <==> bits & 2 != 0,
        flag_set(bits, 4) <==> bits & 4 != 0,
        flag_set(bits, 0x10) <==> bits & 0x10 != 0,
        flag_set(bits, 0x20) <==> bits & 0x20 != 0,
{
    assert(bits & flag == flag <==> bits | flag == bits) by (bit_vector);
    assert((bits & 1 == 1 <==> bits & 1 != 0) && (bits & 2 == 2 <==> bits & 2 != 0) && (bits & 4
        == 4 <==> bits & 4 != 0) && (bits & 0x10 == 0x10 <==> bits & 0x10 != 0) && (bits & 0x20
        == 0x20 <==> bits & 0x20 != 0)) by (bit_vector);
}

/// The flags of a mapping have the bit of a permission exactly where the permissions asked for
/// have it, and the bit of the user in any case, and no other bit.
pub proof fn law_permissions_become_flags(value: MmapProt)
    ensures
        ({
            let flags = <MappingFlags as vstd::std_specs::convert::FromSpec<
                MmapProt,
            >>::from_spec(value);
            &&& flags.bits & 1 != 0 <==> value.bits & 1 != 0
            &&& flags.bits & 2 != 0 <==> value.bits & 2 != 0
            &&& flags.bits & 4 != 0 <==> value.bits & 4 != 0
            &&& flags.bits & 8 != 0
            &&& flags.bits < 16
        }),
{
    law_set_flags_add_nothing(value.bits, 0);
    law_flags_grant_what_was_asked(
        flag_set(value.bits, 1),
        flag_set(value.bits, 2),
        flag_set(value.bits, 4),
    );
}

/// A mapping grants the user exactly what was asked.
pub proof fn law_flags_grant_what_was_asked(read: bool, write: bool, execute: bool)
    ensures
        user_flags(read, write, execute).bits & 1 != 0 <==> read,
        user_flags(read, write, execute).bits & 2 != 0 <==> write,
        user_flags(read, write, execute).bits & 4 != 0 <==> execute,
        user_flags(read, write, execute).bits & 8 != 0,
        user_flags(read, write, execute).bits < 16,
        user_flags(read, write, execute).reads() == read,
        user_flags(read, write, execute).writes() == write,
        user_flags(read, write, execute).executes() == execute,
        user_flags(read, write, execute).is_user(),
{
    let bits = user_flags(read, write, execute).bits;
    let r: usize = if read { 1 } else { 0 };
    let w: usize = if write { 2 } else { 0 };
    let x: usize = if execute { 4 } else { 0 };
    assert((bits & 1 != 0 <==> r == 1) && (bits & 2 != 0 <==> w == 2) && (bits & 4 != 0 <==> x
        == 4) && bits & 8 != 0) by (bit_vector)
        requires
            bits == 8 + r + w + x,
            r == 0 || r == 1,
            w == 0 || w == 2,
            x == 0 || x == 4,
    ;
}

} // verus!
