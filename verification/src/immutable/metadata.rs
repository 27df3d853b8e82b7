//! The metadata of hashes, as rows of Postgres hold it.

use crate::error::StoreError;
use crate::sql::{Fault, SqlCall};
use crate::types::{
    zero_context, zero_context_address, Address, ContentHash, Fragment, FragmentFlags,
};
use vstd::prelude::*;

verus! {

/// A row of the metadata table. The columns are signed; flags and sizes keep their bits.
#[derive(Clone, Copy, Debug, PartialEq, Eq, Structural)]
pub struct MetadataRow {
    pub flags: i64,
    pub size_payload: i64,
    pub size_content: i64,
}

/// The fragment that a row describes.
pub open spec fn fragment_of(row: MetadataRow) -> Fragment {
    Fragment {
        flags: row.flags as u32,
        size_payload: row.size_payload as u32,
        size_content: row.size_content as u64,
    }
}

/// The row that a fragment is written as.
pub open spec fn row_of(fragment: Fragment) -> MetadataRow {
    MetadataRow {
        flags: fragment.flags as i64,
        size_payload: fragment.size_payload as i64,
        size_content: fragment.size_content as i64,
    }
}

/// What is written is what is read: a row gives back the fragment it was made of.
pub proof fn metadata_round_trip(fragment: Fragment)
    ensures
        fragment_of(row_of(fragment)) == fragment,
{
    let flags = fragment.flags;
    let size_payload = fragment.size_payload;
    let size_content = fragment.size_content;
    assert((flags as i64) as u32 == flags) by (bit_vector);
    assert((size_payload as i64) as u32 == size_payload) by (bit_vector);
    assert((size_content as i64) as u64 == size_content) by (bit_vector);
}

/// The fragment that a row describes.
pub fn fragment_from_row(row: &MetadataRow) -> (fragment: Fragment)
    ensures
        fragment == fragment_of(*row),
{
    Fragment {
        flags: row.flags as u32,
        size_payload: row.size_payload as u32,
        size_content: row.size_content as u64,
    }
}

/// The metadata of a hash, from the row that was found, if any.
pub open spec fn metadata_loaded(
    hash: ContentHash,
    reply: Result<Option<MetadataRow>, Fault>,
) -> Result<Fragment, StoreError> {
    match reply {
        Ok(Some(row)) => Ok(fragment_of(row)),
        Ok(None) => Err(StoreError::AddressNotFound { address: zero_context_address(hash) }),
        Err(fault) => Err(StoreError::of_fault(fault, SqlCall::LoadMetadata)),
    }
}

/// The metadata of a hash, from the row that was found, if any.
pub fn load_metadata(hash: ContentHash, reply: Result<Option<MetadataRow>, Fault>) -> (metadata:
    Result<Fragment, StoreError>)
    ensures
        metadata == metadata_loaded(hash, reply),
{
    match reply {
        Ok(Some(row)) => Ok(fragment_from_row(&row)),
        Ok(None) => Err(StoreError::AddressNotFound { address: Address::zero_context_hash(hash) }),
        Err(fault) => Err(StoreError::from_fault(fault, SqlCall::LoadMetadata)),
    }
}

/// Metadata whose sizes the host has passed its verdict on.
pub open spec fn size_validated(
    metadata: Result<Fragment, StoreError>,
    verdict: Result<(), String>,
) -> Result<Fragment, StoreError> {
    match metadata {
        Ok(fragment) => match verdict {
            Ok(()) => Ok(fragment),
            Err(cause) => Err(StoreError::Invalid { cause }),
        },
        Err(e) => Err(e),
    }
}

/// The metadata of a hash, from the row that was found, if any. `verdict` is what the host
/// says of the sizes in the row; it is of no account where there is no row.
pub fn metadata_with_size_validation(
    hash: ContentHash,
    reply: Result<Option<MetadataRow>, Fault>,
    verdict: Result<(), String>,
) -> (metadata: Result<Fragment, StoreError>)
    ensures
        metadata == size_validated(metadata_loaded(hash, reply), verdict),
{
    match load_metadata(hash, reply) {
        Ok(fragment) => match verdict {
            Ok(()) => Ok(fragment),
            Err(cause) => Err(StoreError::Invalid { cause }),
        },
        Err(e) => Err(e),
    }
}

/// Whether a fragment is being obliterated, or has been.
pub open spec fn obliteration(flags: FragmentFlags, fragment: Fragment) -> bool {
    fragment.flags & flags.payload_obliteration != 0
}

/// Metadata for loading the payload: an obliterated fragment is not there.
pub open spec fn load_validated(
    flags: FragmentFlags,
    hash: ContentHash,
    metadata: Result<Fragment, StoreError>,
) -> Result<Fragment, StoreError> {
    match metadata {
        Ok(fragment) => if obliteration(flags, fragment) {
            Err(StoreError::AddressNotFound { address: zero_context_address(hash) })
        } else {
            Ok(fragment)
        },
        Err(e) => Err(e),
    }
}

/// The metadata of a hash for loading its payload, from the row that was found, if any.
/// `verdict` is what the host says of the sizes in the row.
pub fn metadata_with_load_validation(
    flags: FragmentFlags,
    hash: ContentHash,
    reply: Result<Option<MetadataRow>, Fault>,
    verdict: Result<(), String>,
) -> (metadata: Result<Fragment, StoreError>)
    ensures
        metadata == load_validated(
            flags,
            hash,
            size_validated(metadata_loaded(hash, reply), verdict),
        ),
{
    match metadata_with_size_validation(hash, reply, verdict) {
        Ok(fragment) => {
            if fragment.flags & flags.payload_obliteration != 0 {
                Err(StoreError::AddressNotFound { address: Address::zero_context_hash(hash) })
            } else {
                Ok(fragment)
            }
        },
        Err(e) => Err(e),
    }
}

/// What is made of the number of rows that a replacement of metadata has changed: none
/// means that somebody else was faster.
pub open spec fn metadata_updated(reply: Result<u64, Fault>) -> Result<(), StoreError> {
    match reply {
        Ok(rows) => if rows == 0 {
            Err(StoreError::MetadataConflict)
        } else {
            Ok(())
        },
        Err(fault) => Err(StoreError::of_fault(fault, SqlCall::UpdateMetadataCas)),
    }
}

/// What is made of the number of rows that a replacement of metadata has changed.
pub fn update_metadata_cas(reply: Result<u64, Fault>) -> (result: Result<(), StoreError>)
    ensures
        result == metadata_updated(reply),
{
    match reply {
        Ok(rows) => {
            if rows == 0 {
                Err(StoreError::MetadataConflict)
            } else {
                Ok(())
            }
        },
        Err(fault) => Err(StoreError::from_fault(fault, SqlCall::UpdateMetadataCas)),
    }
}

/// A fragment is marked by an obliteration if and only if one of its stages has left a mark:
/// it is being obliterated, or it has been.
pub proof fn obliteration_has_two_stages(flags: FragmentFlags, fragment: Fragment)
    requires
        flags.well_formed(),
    ensures
        obliteration(flags, fragment) <==> fragment.flags & flags.payload_obliterating != 0
            || fragment.flags & flags.payload_obliterated != 0,
{
    let (f, a, b) = (fragment.flags, flags.payload_obliterating, flags.payload_obliterated);
    assert(f & (a | b) != 0 <==> f & a != 0 || f & b != 0) by (bit_vector);
}

/// What a row holds is what is read of it: flags and payload sizes that fit into 32 bits are
/// taken as they are, and so are sizes of contents that are not negative.
pub proof fn rows_read_as_written(row: MetadataRow, fragment: Fragment)
    requires
        0 <= row.flags <= u32::MAX,
        0 <= row.size_payload <= u32::MAX,
        0 <= row.size_content,
        call_ensures(fragment_from_row, (&row,), fragment),
    ensures
        fragment.flags == row.flags,
        fragment.size_payload == row.size_payload,
        fragment.size_content == row.size_content,
{
}

/// Metadata that was found is what is loaded, unless the host objects to its sizes, or it is
/// marked by an obliteration; a hash without metadata is not there, whatever the host says.
pub proof fn metadata_found(
    flags: FragmentFlags,
    hash: ContentHash,
    row: Option<MetadataRow>,
    verdict: Result<(), String>,
    sized: Result<Fragment, StoreError>,
    loaded: Result<Fragment, StoreError>,
)
    requires
        call_ensures(
            metadata_with_size_validation,
            (hash, Ok::<Option<MetadataRow>, Fault>(row), verdict),
            sized,
        ),
        call_ensures(
            metadata_with_load_validation,
            (flags, hash, Ok::<Option<MetadataRow>, Fault>(row), verdict),
            loaded,
        ),
    ensures
        ({
            let gone = Err::<Fragment, StoreError>(
                StoreError::AddressNotFound { address: Address { hash, context: zero_context() } },
            );
            match row {
                None => sized == gone && loaded == gone,
                Some(row) => match verdict {
                    Err(cause) => {
                        let refused = Err::<Fragment, StoreError>(StoreError::Invalid { cause });
                        sized == refused && loaded == refused
                    },
                    Ok(()) => sized == Ok::<Fragment, StoreError>(fragment_of(row)) && loaded
                        == if obliteration(flags, fragment_of(row)) {
                        gone
                    } else {
                        sized
                    },
                },
            }
        }),
{
}

} // verus!
