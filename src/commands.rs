//! The two workflows: verifying a project in a scratch environment, and
//! bumping a package's version from the latest commit.
pub mod verify;
pub mod version;
