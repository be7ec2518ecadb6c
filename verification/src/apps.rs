use vstd::prelude::*;

verus! {

/// The browser applications a routing rule can select, plus the
/// fallback of handing the URL to the operating system's opener.
#[derive(Clone, Copy, PartialEq, Eq, Structural, Debug)]
pub enum Apps {
    Chrome,
    Edge,
    Firefox,
    Default,
}

/// Path of the generic OS opener used when no rule applies.
pub open spec fn open_path_spec() -> Seq<char> {
    "/usr/bin/open"@
}

pub open spec fn chrome_path_spec() -> Seq<char> {
    "/Applications/Google Chrome.app/Contents/MacOS/Google Chrome"@
}

pub open spec fn edge_path_spec() -> Seq<char> {
    "/Applications/Microsoft Edge.app/Contents/MacOS/Microsoft Edge"@
}

pub open spec fn firefox_path_spec() -> Seq<char> {
    "/Applications/Firefox.app/Contents/MacOS/firefox"@
}

/// The executable launched for each browser kind.
pub open spec fn app_path_spec(app: Apps) -> Seq<char> {
    match app {
        Apps::Chrome => chrome_path_spec(),
        Apps::Edge => edge_path_spec(),
        Apps::Firefox => firefox_path_spec(),
        Apps::Default => open_path_spec(),
    }
}

impl Apps {
    /// The fixed install path of this browser's executable.
    pub fn path(&self) -> (r: &'static str)
        ensures
            r@ == app_path_spec(*self),
    {
        match self {
            Apps::Chrome => "/Applications/Google Chrome.app/Contents/MacOS/Google Chrome",
            Apps::Edge => "/Applications/Microsoft Edge.app/Contents/MacOS/Microsoft Edge",
            Apps::Firefox => "/Applications/Firefox.app/Contents/MacOS/firefox",
            Apps::Default => "/usr/bin/open",
        }
    }
}

} // verus!
