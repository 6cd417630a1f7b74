//! Numbers that cannot be zero and paths that cannot be empty.

use vstd::prelude::*;

use crate::error::{ConfigError, ConfigResult};

verus! {

/// A size or count other than zero.
#[derive(Debug, Clone, Copy, PartialEq, Eq)]
pub struct PositiveUsize {
    value: usize,
}

impl View for PositiveUsize {
    type V = usize;

    closed spec fn view(&self) -> usize {
        self.value
    }
}

impl PositiveUsize {
    #[verifier::type_invariant]
    spec fn positive(self) -> bool {
        self.value > 0
    }

    /// The number, unless it is zero.
    pub fn new(value: usize) -> (checked: Option<Self>)
        ensures
            match checked {
                Some(checked) => value > 0 && checked@ == value,
                None => value == 0,
            },
    {
        if value == 0 {
            None
        } else {
            Some(PositiveUsize { value })
        }
    }

    /// The number.
    pub fn get(self) -> (value: usize)
        ensures
            value == self@,
            value > 0,
    {
        proof {
            use_type_invariant(&self);
        }
        self.value
    }

    /// The number, or `message` as an error if it is zero.
    pub fn checked(value: usize, message: &str) -> (checked: ConfigResult<Self>)
        ensures
            match checked {
                Ok(checked) => value > 0 && checked@ == value,
                Err(error) => value == 0 && error@ == message@,
            },
    {
        match PositiveUsize::new(value) {
            Some(checked) => Ok(checked),
            None => Err(ConfigError::new(message)),
        }
    }
}

/// A 64-bit size or duration other than zero.
#[derive(Debug, Clone, Copy, PartialEq, Eq)]
pub struct PositiveU64 {
    value: u64,
}

impl View for PositiveU64 {
    type V = u64;

    closed spec fn view(&self) -> u64 {
        self.value
    }
}

impl PositiveU64 {
    #[verifier::type_invariant]
    spec fn positive(self) -> bool {
        self.value > 0
    }

    /// The number, unless it is zero.
    pub fn new(value: u64) -> (checked: Option<Self>)
        ensures
            match checked {
                Some(checked) => value > 0 && checked@ == value,
                None => value == 0,
            },
    {
        if value == 0 {
            None
        } else {
            Some(PositiveU64 { value })
        }
    }

    /// The number.
    pub fn get(self) -> (value: u64)
        ensures
            value == self@,
            value > 0,
    {
        proof {
            use_type_invariant(&self);
        }
        self.value
    }

    /// The number, or `message` as an error if it is zero.
    pub fn checked(value: u64, message: &str) -> (checked: ConfigResult<Self>)
        ensures
            match checked {
                Ok(checked) => value > 0 && checked@ == value,
                Err(error) => value == 0 && error@ == message@,
            },
    {
        match PositiveU64::new(value) {
            Some(checked) => Ok(checked),
            None => Err(ConfigError::new(message)),
        }
    }
}

/// A path with at least one character.
#[derive(Debug, PartialEq, Eq)]
pub struct NonEmptyPathBuf {
    path: String,
}

impl View for NonEmptyPathBuf {
    type V = Seq<char>;

    closed spec fn view(&self) -> Seq<char> {
        self.path@
    }
}

impl NonEmptyPathBuf {
    #[verifier::type_invariant]
    spec fn named(self) -> bool {
        self.path@.len() > 0
    }

    /// The path, unless it is empty.
    pub fn try_new(path: String) -> (checked: ConfigResult<Self>)
        ensures
            match checked {
                Ok(checked) => path@.len() > 0 && checked@ == path@,
                Err(error) => path@.len() == 0 && error@ == "path must not be empty"@,
            },
    {
        if path.as_str().is_empty() {
            Err(ConfigError::new("path must not be empty"))
        } else {
            Ok(NonEmptyPathBuf { path })
        }
    }

    /// The path.
    pub fn as_path(&self) -> (path: &str)
        ensures
            path@ == self@,
            path@.len() > 0,
    {
        proof {
            use_type_invariant(self);
        }
        self.path.as_str()
    }
}

impl Clone for NonEmptyPathBuf {
    fn clone(&self) -> (copy: Self)
        ensures
            copy@ == self@,
    {
        proof {
            use_type_invariant(self);
        }
        NonEmptyPathBuf { path: self.path.clone() }
    }
}

/// A disk cache tier: where it lives and how much it may hold.
#[derive(Debug, PartialEq, Eq)]
pub struct DiskCacheConfig {
    root: NonEmptyPathBuf,
    bytes: PositiveUsize,
}

impl DiskCacheConfig {
    /// Where the tier lives.
    pub closed spec fn spec_root(self) -> Seq<char> {
        self.root@
    }

    /// How much the tier may hold.
    pub closed spec fn spec_bytes(self) -> usize {
        self.bytes@
    }

    /// Builds a disk tier, rejecting an empty root and then a zero capacity.
    pub fn try_new(root: String, bytes: usize) -> (checked: ConfigResult<Self>)
        ensures
            match checked {
                Ok(disk) => root@.len() > 0 && bytes > 0 && disk.spec_root() == root@
                    && disk.spec_bytes() == bytes,
                Err(error) => if root@.len() == 0 {
                    error@ == "path must not be empty"@
                } else {
                    bytes == 0 && error@ == "disk cache capacity must be nonzero"@
                },
            },
    {
        let root = match NonEmptyPathBuf::try_new(root) {
            Ok(root) => root,
            Err(error) => {
                return Err(error);
            },
        };
        match PositiveUsize::checked(bytes, "disk cache capacity must be nonzero") {
            Ok(bytes) => Ok(DiskCacheConfig { root, bytes }),
            Err(error) => Err(error),
        }
    }

    /// Where the tier lives.
    pub fn root(&self) -> (root: &str)
        ensures
            root@ == self.spec_root(),
            root@.len() > 0,
    {
        self.root.as_path()
    }

    /// How much the tier may hold.
    pub fn bytes(&self) -> (bytes: usize)
        ensures
            bytes == self.spec_bytes(),
            bytes > 0,
    {
        self.bytes.get()
    }
}

impl Clone for DiskCacheConfig {
    fn clone(&self) -> (copy: Self)
        ensures
            copy.spec_root() == self.spec_root(),
            copy.spec_bytes() == self.spec_bytes(),
    {
        DiskCacheConfig { root: self.root.clone(), bytes: self.bytes }
    }
}

/// A number other than zero is accepted and read back, and zero is rejected, with
/// the given message where there is one.
pub proof fn law_sizes_read_back(
    value: usize,
    message: &str,
    plain: Option<PositiveUsize>,
    checked: ConfigResult<PositiveUsize>,
    read: usize,
)
    requires
        call_ensures(PositiveUsize::new, (value,), plain),
        call_ensures(PositiveUsize::checked, (value, message), checked),
        checked matches Ok(checked) ==> call_ensures(PositiveUsize::get, (checked,), read),
    ensures
        plain is Some <==> value > 0,
        plain is Some ==> plain->Some_0@ == value,
        checked is Ok <==> value > 0,
        checked is Ok ==> read == value,
        checked matches Err(error) ==> error@ == message@,
{
}

/// The same of 64-bit numbers.
pub proof fn law_wide_sizes_read_back(
    value: u64,
    message: &str,
    plain: Option<PositiveU64>,
    checked: ConfigResult<PositiveU64>,
    read: u64,
)
    requires
        call_ensures(PositiveU64::new, (value,), plain),
        call_ensures(PositiveU64::checked, (value, message), checked),
        checked matches Ok(checked) ==> call_ensures(PositiveU64::get, (checked,), read),
    ensures
        plain is Some <==> value > 0,
        plain is Some ==> plain->Some_0@ == value,
        checked is Ok <==> value > 0,
        checked is Ok ==> read == value,
        checked matches Err(error) ==> error@ == message@,
{
}

/// A disk tier has the root and the capacity that it was built with; an empty root
/// and a capacity of zero are rejected.
pub proof fn law_disk_tiers_read_back(
    root: String,
    bytes: usize,
    checked: ConfigResult<DiskCacheConfig>,
    read_root: &str,
    read_bytes: usize,
)
    requires
        call_ensures(DiskCacheConfig::try_new, (root, bytes), checked),
        checked matches Ok(disk) ==> call_ensures(DiskCacheConfig::root, (&disk,), read_root),
        checked matches Ok(disk) ==> call_ensures(DiskCacheConfig::bytes, (&disk,), read_bytes),
    ensures
        checked is Ok <==> root@.len() > 0 && bytes > 0,
        checked is Ok ==> read_root@ == root@ && read_bytes == bytes,
{
}

/// A path that is not empty is accepted and read back.
pub proof fn law_paths_read_back(
    path: String,
    checked: ConfigResult<NonEmptyPathBuf>,
    read: &str,
)
    requires
        call_ensures(NonEmptyPathBuf::try_new, (path,), checked),
        checked matches Ok(checked) ==> call_ensures(NonEmptyPathBuf::as_path, (&checked,), read),
    ensures
        checked is Ok <==> path@.len() > 0,
        checked is Ok ==> read@ == path@,
{
}

} // verus!
