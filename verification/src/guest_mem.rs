use vstd::prelude::*;

verus! {

/// Why data cannot be copied into a guest memory region.
#[derive(Debug, Clone, Copy, PartialEq, Eq)]
pub enum LoadError {
    /// There is no region with the given index.
    IndexOutOfRange,
    /// The offset is at or past the end of the region.
    OffsetOutOfRange,
    /// The data would run past the end of the region.
    DataTooLarge,
}

/// Where a copy of `data_len` bytes at `offset` into a region of
/// `region_size` bytes (`None` when there is no such region) may go.
pub open spec fn load_range_spec(region_size: Option<usize>, offset: u64, data_len: usize) -> Result<
    usize,
    LoadError,
> {
    match region_size {
        None => Err(LoadError::IndexOutOfRange),
        Some(size) => if offset as usize >= size {
            Err(LoadError::OffsetOutOfRange)
        } else if offset as usize + data_len > size {
            Err(LoadError::DataTooLarge)
        } else {
            Ok(offset as usize)
        },
    }
}

/// Checks that `data_len` bytes fit at `offset` in a region of
/// `region_size` bytes; on success, gives the byte offset to copy to.
pub fn check_load_range(region_size: Option<usize>, offset: u64, data_len: usize) -> (r: Result<
    usize,
    LoadError,
>)
    requires
        region_size matches Some(size) && (offset as usize) < size ==> offset as usize + data_len
            <= usize::MAX,
    ensures
        r == load_range_spec(region_size, offset, data_len),
        r matches Ok(start) ==> start + data_len <= region_size->0,
{
    let mem_size = match region_size {
        None => {
            return Err(LoadError::IndexOutOfRange);
        },
        Some(size) => size,
    };
    if (offset as usize) >= mem_size {
        return Err(LoadError::OffsetOutOfRange);
    }
    if (offset as usize) + data_len > mem_size {
        return Err(LoadError::DataTooLarge);
    }
    Ok(offset as usize)
}


/// A copy is accepted exactly when the region exists and the copy lies
/// inside it, and then at the offset asked for; every refusal names why.
pub proof fn lemma_load_range_accepts_fitting_copies(
    region_size: Option<usize>,
    offset: u64,
    data_len: usize,
)
    ensures
        (region_size matches Some(size) && (offset as usize) < size && offset as usize + data_len
            <= size) ==> load_range_spec(region_size, offset, data_len) == Ok::<usize, LoadError>(
            offset as usize,
        ),
        load_range_spec(region_size, offset, data_len) matches Ok(start) ==> start == offset as usize
            && region_size is Some && start + data_len <= region_size->0,
        region_size is None ==> load_range_spec(region_size, offset, data_len) == Err::<
            usize,
            LoadError,
        >(LoadError::IndexOutOfRange),
        (region_size matches Some(size) && offset as usize >= size) ==> load_range_spec(
            region_size,
            offset,
            data_len,
        ) == Err::<usize, LoadError>(LoadError::OffsetOutOfRange),
        (region_size matches Some(size) && (offset as usize) < size && offset as usize + data_len
            > size) ==> load_range_spec(region_size, offset, data_len) == Err::<usize, LoadError>(
            LoadError::DataTooLarge,
        ),
{
}
} // verus!
