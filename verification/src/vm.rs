//! The status and listing of virtual machines as `utmctl` reports them.

use vstd::prelude::*;
use crate::text::{
    ascii_lower, chars_of, is_ascii_text, law_trim_idempotent, lemma_ascii_lower_again,
    lemma_ascii_lower_trimmed, lemma_trim_ascii, str_eq, string_of, trim, trim_vec,
};

verus! {

/// Current lifecycle status of a VM as reported by `utmctl`.
#[derive(Debug, Clone, PartialEq, Eq)]
pub enum VmStatus {
    /// VM is powered off.
    Stopped,
    /// VM is running.
    Started,
    /// VM is paused.
    Paused,
    /// VM is in the process of starting.
    Starting,
    /// VM is in the process of stopping.
    Stopping,
    /// Status string not recognised (lowercased, as it was read).
    Unknown(String),
}

/// The mathematical value of a [`VmStatus`].
pub enum StatusView {
    Stopped,
    Started,
    Paused,
    Starting,
    Stopping,
    Unknown(Seq<char>),
}

impl View for VmStatus {
    type V = StatusView;

    open spec fn view(&self) -> StatusView {
        match self {
            VmStatus::Stopped => StatusView::Stopped,
            VmStatus::Started => StatusView::Started,
            VmStatus::Paused => StatusView::Paused,
            VmStatus::Starting => StatusView::Starting,
            VmStatus::Stopping => StatusView::Stopping,
            VmStatus::Unknown(s) => StatusView::Unknown(s@),
        }
    }
}

/// The status named by an already lowercased and trimmed status word.
pub open spec fn status_from_lowercase(s: Seq<char>) -> StatusView {
    if s == "stopped"@ {
        StatusView::Stopped
    } else if s == "started"@ {
        StatusView::Started
    } else if s == "paused"@ {
        StatusView::Paused
    } else if s == "starting"@ {
        StatusView::Starting
    } else if s == "stopping"@ {
        StatusView::Stopping
    } else {
        StatusView::Unknown(s)
    }
}

/// What std `str::to_lowercase` returns for `s`: its Unicode lowercase mapping.
pub uninterp spec fn lowercase(s: Seq<char>) -> Seq<char>;

/// Lowercases `s` with std `str::to_lowercase` (the Unicode lowercase mapping, the same on
/// every machine); the result is the value of [`lowercase`] on `s`. Of that mapping only
/// its ASCII part is stated: on ASCII text it lowercases `A`..`Z` and keeps every other
/// character.
#[verifier::external_body]
pub(crate) fn to_lowercase(s: &str) -> (r: String)
    ensures
        r@ == lowercase(s@),
        is_ascii_text(s@) ==> r@ == ascii_lower(s@),
{
    s.to_lowercase()
}

/// The status that `utmctl` means by the text `s`: trimmed, lowercased, then matched.
pub open spec fn status_of_text(s: Seq<char>) -> StatusView {
    status_from_lowercase(lowercase(trim(s)))
}

/// The status that ASCII text `s` names: trimmed, ASCII-lowercased, then matched.
pub open spec fn ascii_status_of_text(s: Seq<char>) -> StatusView {
    status_from_lowercase(ascii_lower(trim(s)))
}

impl VmStatus {
    /// The status named by `s`, which is already trimmed and lowercased.
    pub fn from_lowercase(s: &str) -> (r: VmStatus)
        ensures
            r@ == status_from_lowercase(s@),
    {
        if str_eq(s, "stopped") {
            VmStatus::Stopped
        } else if str_eq(s, "started") {
            VmStatus::Started
        } else if str_eq(s, "paused") {
            VmStatus::Paused
        } else if str_eq(s, "starting") {
            VmStatus::Starting
        } else if str_eq(s, "stopping") {
            VmStatus::Stopping
        } else {
            VmStatus::Unknown(string_of(chars_of(s).as_slice()))
        }
    }

    /// Whether `self` and `other` are the same status (what `==` compares).
    pub fn same_as(&self, other: &VmStatus) -> (r: bool)
        ensures
            r == (self@ == other@),
    {
        match (self, other) {
            (VmStatus::Stopped, VmStatus::Stopped) => true,
            (VmStatus::Started, VmStatus::Started) => true,
            (VmStatus::Paused, VmStatus::Paused) => true,
            (VmStatus::Starting, VmStatus::Starting) => true,
            (VmStatus::Stopping, VmStatus::Stopping) => true,
            (VmStatus::Unknown(a), VmStatus::Unknown(b)) => str_eq(a.as_str(), b.as_str()),
            _ => false,
        }
    }

    /// Parses a status word as `utmctl` prints it, ignoring surrounding white space and case.
    pub fn from_str(s: &str) -> (r: VmStatus)
        ensures
            r@ == status_of_text(s@),
            is_ascii_text(s@) ==> r@ == ascii_status_of_text(s@),
    {
        let v = chars_of(s);
        let t = string_of(trim_vec(&v).as_slice());
        proof {
            if is_ascii_text(s@) {
                lemma_trim_ascii(s@);
            }
        }
        let lower = to_lowercase(t.as_str());
        VmStatus::from_lowercase(lower.as_str())
    }
}

/// Basic information about a VM as listed by `utmctl list`.
#[derive(Debug, Clone)]
pub struct VmInfo {
    /// Display name.
    pub name: String,
    /// UUID assigned by UTM.
    pub uuid: String,
    /// Current status.
    pub status: VmStatus,
}

/// The mathematical value of a [`VmInfo`].
pub struct VmInfoView {
    pub name: Seq<char>,
    pub uuid: Seq<char>,
    pub status: StatusView,
}

impl View for VmInfo {
    type V = VmInfoView;

    open spec fn view(&self) -> VmInfoView {
        VmInfoView { name: self.name@, uuid: self.uuid@, status: self.status@ }
    }
}


/// Law: a status word reads the same once trimmed: surrounding white space never matters.
pub proof fn law_status_ignores_trimming(s: Seq<char>)
    ensures
        status_of_text(trim(s)) == status_of_text(s),
{
    law_trim_idempotent(s);
}

/// Law: reading an ASCII status word is unchanged by trimming and lowercasing it first:
/// `VmStatus::from_str(s)` and `VmStatus::from_str(&s.trim().to_lowercase())` give the
/// same status.
pub proof fn law_status_lowercase_again(s: Seq<char>)
    requires
        is_ascii_text(s),
    ensures
        is_ascii_text(ascii_lower(trim(s))),
        ascii_status_of_text(ascii_lower(trim(s))) == ascii_status_of_text(s),
{
    let t = trim(s);
    lemma_trim_ascii(s);
    law_trim_idempotent(s);
    lemma_ascii_lower_trimmed(t);
    lemma_ascii_lower_again(t);
}

} // verus!
