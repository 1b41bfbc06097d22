//! Patches a commit message so that it carries a ticket identifier.
//!
//! The core operation is [`patch_commit_msg::patch_commit_msg`]: a pure
//! function from the message's lines, an optional ticket identifier and an
//! optional display prefix to the new lines.  It classifies each line
//! (empty, comment, service-data trailer, plain), scans the message from the
//! bottom for the final trailer block, and either leaves the message alone,
//! inserts the prefixed ticket line before that block, or appends it at the
//! end behind one separating blank line.
//!
//! [`environment`] holds the plain-data view of the process environment that
//! the surrounding command-line layer hands in: which file to patch, which
//! prefix to use, and whether to show usage instead.

pub mod environment;
pub mod laws;
pub mod patch_commit_msg;
