//! The fixed vocabulary of abstract path roots.
//!
//! A placeholder stands for a directory whose real location depends on the
//! machine and the user. Paths carry it verbatim in front.

use vstd::prelude::*;

verus! {

/// A root that the user has configured for a store.
pub const ROOT: &'static str = "<root>";

/// The directory name under which a store installs the game.
pub const GAME: &'static str = "<game>";

/// The directory that the game is installed in.
pub const BASE: &'static str = "<base>";

/// The user's home directory.
pub const HOME: &'static str = "<home>";

/// The user's identifier in a store.
pub const STORE_USER_ID: &'static str = "<storeUserId>";

/// The user's account name in the operating system.
pub const OS_USER_NAME: &'static str = "<osUserName>";

/// The roaming application data directory of Windows.
pub const WIN_APP_DATA: &'static str = "<winAppData>";

/// The local application data directory of Windows.
pub const WIN_LOCAL_APP_DATA: &'static str = "<winLocalAppData>";

/// The low-integrity local application data directory of Windows.
pub const WIN_LOCAL_APP_DATA_LOW: &'static str = "<winLocalAppDataLow>";

/// The documents directory of Windows.
pub const WIN_DOCUMENTS: &'static str = "<winDocuments>";

/// The public user directory of Windows.
pub const WIN_PUBLIC: &'static str = "<winPublic>";

/// The program data directory of Windows.
pub const WIN_PROGRAM_DATA: &'static str = "<winProgramData>";

/// The directory that Windows itself is installed in.
pub const WIN_DIR: &'static str = "<winDir>";

/// The XDG data directory.
pub const XDG_DATA: &'static str = "<xdgData>";

/// The XDG configuration directory.
pub const XDG_CONFIG: &'static str = "<xdgConfig>";

/// Every placeholder.
pub const ALL: [&'static str; 15] = [
    ROOT,
    GAME,
    BASE,
    HOME,
    STORE_USER_ID,
    OS_USER_NAME,
    WIN_APP_DATA,
    WIN_LOCAL_APP_DATA,
    WIN_LOCAL_APP_DATA_LOW,
    WIN_DOCUMENTS,
    WIN_PUBLIC,
    WIN_PROGRAM_DATA,
    WIN_DIR,
    XDG_DATA,
    XDG_CONFIG,
];

/// The placeholders under which a wildcard, or the store user identifier,
/// as the next segment says too little.
pub const AVOID_WILDCARDS: [&'static str; 10] = [
    ROOT,
    HOME,
    WIN_APP_DATA,
    WIN_LOCAL_APP_DATA,
    WIN_DOCUMENTS,
    WIN_PUBLIC,
    WIN_PROGRAM_DATA,
    WIN_DIR,
    XDG_DATA,
    XDG_CONFIG,
];

/// The texts of [`ALL`], in its order.
pub open spec fn vocabulary() -> Seq<Seq<char>> {
    Seq::new(ALL@.len(), |i: int| ALL@[i]@)
}

/// The texts of [`AVOID_WILDCARDS`], in its order.
pub open spec fn wildcard_avoiding() -> Seq<Seq<char>> {
    Seq::new(AVOID_WILDCARDS@.len(), |i: int| AVOID_WILDCARDS@[i]@)
}

} // verus!
