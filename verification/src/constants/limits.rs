//! The number of characters allowed in each database column, so that no
//! stored value exceeds its column.
use vstd::prelude::*;

verus! {

pub const USER_ID_MAX_LEN: usize = 45;
pub const USER_AVATAR_ID_MAX_LEN: usize = 65;
pub const PLATFORM_MAX_LEN: usize = 10;
pub const USER_BIO_MAX_LEN: usize = 260;
pub const REPO_ID_MAX_LEN: usize = 150;
pub const REPO_OWNER_MAX_LEN: usize = 45;
pub const REPO_DESCRIPTION_MAX_LEN: usize = 260;
pub const REPO_DEFAULT_BRANCH_MAX_LEN: usize = 260;
pub const REPO_LICENSE_MAX_LEN: usize = 40;
pub const REPO_PRIMARY_LANGUAGE_MAX_LEN: usize = 50;
pub const REPO_COMMIT_HASH_MAX_LEN: usize = 40;
pub const TOPIC_MAX_LEN: usize = 60;
pub const DEPENDENT_MAX_LEN: usize = 260;
pub const RELEASE_VERSION_MAX_LEN: usize = 255;
pub const RELEASE_MIN_ZIG_VERSION_MAX_LEN: usize = 30;
pub const RELEASE_DEPENDENCY_FIELD_MAX_LEN: usize = 260;
pub const RELEASE_DIRECTORY_FILES_MAX_LEN: usize = 10000;
pub const INDEX_SECTION_NAME_MAX_LEN: usize = 10;

} // verus!
