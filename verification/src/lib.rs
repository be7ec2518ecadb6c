//! Routes a URL to a browser and browser profile. Rules map domains to
//! a browser kind and a profile display name; a scan of the browser's
//! profile-storage tree resolves display names to on-disk profile
//! directory identifiers; the last rule matching the URL's host decides
//! the command that is launched, and a host no rule lists falls back to
//! the operating system's opener.

pub mod apps;
pub mod command;
pub mod profile_map;
pub mod rules;
pub mod scan;
pub mod url_input;
