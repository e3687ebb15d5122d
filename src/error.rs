use vstd::prelude::*;

verus! {

/// The steps of setting up the hotspot profile, in order.
#[derive(Clone, Copy, Debug, PartialEq, Eq, Structural)]
pub enum CreateStep {
    /// Adding the profile.
    Add,
    /// Setting access-point mode, band and shared addressing.
    Mode,
    /// Setting key management to WPA-PSK.
    Security,
    /// Setting the pre-shared key.
    Key,
}

/// Why an operation failed.
#[derive(Debug)]
pub enum WFError {
    /// The network manager could not be run.
    CommandIO,
    /// Its output was no valid UTF-8.
    CommandParse,
    /// It wrote diagnostics, given here verbatim.
    CommandErr(String),
    /// It ran cleanly, but its output does not report success; the output is given.
    WifiAction(String),
    /// A step of setting up the hotspot profile did not report success.
    HotspotCreate(CreateStep, String),
    /// The operation is not supported yet.
    Unsupported,
}

pub type WFResult<T> = Result<T, WFError>;

/// What a `WFError` holds.
pub enum WFErrorView {
    CommandIO,
    CommandParse,
    CommandErr(Seq<char>),
    WifiAction(Seq<char>),
    HotspotCreate(CreateStep, Seq<char>),
    Unsupported,
}

impl View for WFError {
    type V = WFErrorView;

    open spec fn view(&self) -> WFErrorView {
        match self {
            WFError::CommandIO => WFErrorView::CommandIO,
            WFError::CommandParse => WFErrorView::CommandParse,
            WFError::CommandErr(m) => WFErrorView::CommandErr(m@),
            WFError::WifiAction(m) => WFErrorView::WifiAction(m@),
            WFError::HotspotCreate(s, m) => WFErrorView::HotspotCreate(*s, m@),
            WFError::Unsupported => WFErrorView::Unsupported,
        }
    }
}

} // verus!
