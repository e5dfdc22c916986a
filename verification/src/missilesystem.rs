//! The engagement side: the failure taxonomy and its retry classes, the
//! classification of the remote service's response pages, and the session
//! record whose security token is refreshed after every attempt.

use vstd::prelude::*;

use select::document::Document;
use select::predicate::{Attr, Class};

verus! {

/// These are different ways we can fail to banject a nation.
#[derive(PartialEq, Eq, Structural, Clone, Copy, Debug)]
pub enum BanFailure {
    /// Not enough influence to ban.
    NoInfluence,
    /// Already on the ban list.
    AlreadyBanned,
    /// We banned someone else too recently.
    TooFast,
    /// We lost the privilege that banning needs.
    NotAllowed,
    /// Some other, unknown reason.
    Unknown,
}

/// The outcome of one engagement attempt.
#[derive(PartialEq, Eq, Structural, Clone, Copy, Debug)]
pub enum BanResult {
    Success,
    Failure(BanFailure),
}

/// Different ways we can respond to failing to ban a nation.
#[derive(PartialEq, Eq, Structural, Clone, Copy, Debug)]
pub enum ErrorState {
    /// Trying to ban this nation in the future might be successful.
    TryAgain,
    /// Trying to ban this nation will always fail, so don't bother.
    Skip,
    /// We shouldn't be trying to ban anything at all - stop asking.
    Abort,
}

/// The retry class of each failure reason: a total map over the closed set.
pub open spec fn retry_class(f: BanFailure) -> ErrorState {
    match f {
        BanFailure::TooFast => ErrorState::TryAgain,
        BanFailure::Unknown => ErrorState::TryAgain,
        BanFailure::AlreadyBanned => ErrorState::Skip,
        BanFailure::NoInfluence => ErrorState::Skip,
        BanFailure::NotAllowed => ErrorState::Abort,
    }
}

/// Every defined failure reason falls under exactly one of the three retry
/// classes: the classification is total over the closed reason set.
pub proof fn lemma_retry_classification_total(f: BanFailure)
    ensures
        retry_class(f) == ErrorState::TryAgain || retry_class(f) == ErrorState::Skip
            || retry_class(f) == ErrorState::Abort,
{
}

impl BanFailure {
    /// Quickly check if a given failure type means we should try this target
    /// again later, skip it for the rest of the run, or stop banning at all.
    pub fn try_again_later(&self) -> (result: ErrorState)
        ensures
            result == retry_class(*self),
    {
        let result = match &self {
            BanFailure::TooFast => ErrorState::TryAgain,
            BanFailure::Unknown => ErrorState::TryAgain,
            BanFailure::AlreadyBanned => ErrorState::Skip,
            BanFailure::NoInfluence => ErrorState::Skip,
            BanFailure::NotAllowed => ErrorState::Abort,
        };
        result
    }
}

/// Whether the needle occurs contiguously somewhere in the haystack.
pub open spec fn has_substring(h: Seq<char>, n: Seq<char>) -> bool {
    exists|i: int| 0 <= i && i + n.len() <= h.len() && #[trigger] h.subrange(i, i + n.len()) == n
}

/// Whether one string occurs contiguously in another.
pub fn str_contains(h: &str, n: &str) -> (r: bool)
    ensures
        r == has_substring(h@, n@),
{
    let hlen = h.unicode_len();
    let nlen = n.unicode_len();
    if nlen > hlen {
        return false;
    }
    if nlen == 0 {
        proof {
            assert(h@.subrange(0, 0 + n@.len() as int) =~= n@);
        }
        return true;
    }
    let mut i: usize = 0;
    while i <= hlen - nlen
        invariant
            hlen == h@.len(),
            nlen == n@.len(),
            0 < nlen <= hlen,
            i <= hlen - nlen + 1,
            forall|k: int| 0 <= k < i ==> #[trigger] h@.subrange(k, k + n@.len()) != n@,
        decreases hlen - nlen - i + 1,
    {
        let mut j: usize = 0;
        let mut ok = true;
        while j < nlen
            invariant
                hlen == h@.len(),
                nlen == n@.len(),
                i + nlen <= hlen,
                j <= nlen,
                ok ==> forall|t: int| 0 <= t < j ==> h@[i + t] == n@[t],
                !ok ==> h@.subrange(i as int, i + nlen) != n@,
                !ok ==> j == nlen,
            decreases nlen - j,
        {
            if h.get_char(i + j) != n.get_char(j) {
                proof {
                    assert(h@.subrange(i as int, i + nlen)[j as int] == h@[i + j]);
                }
                ok = false;
                j = nlen;
            } else {
                j = j + 1;
            }
        }
        if ok {
            proof {
                assert(h@.subrange(i as int, i as int + n@.len() as int) =~= n@);
            }
            return true;
        }
        i = i + 1;
    }
    false
}

/// The failure reason an error message spells out, by its marker phrases; a
/// message with none of them is an unknown failure.
pub open spec fn spec_classify_failure(msg: Seq<char>) -> BanFailure {
    if has_substring(msg, "heavy nation-shifting assets are currently deployed"@) {
        BanFailure::TooFast
    } else if has_substring(msg, "don't have enough regional influence"@) {
        BanFailure::NoInfluence
    } else if has_substring(msg, "is already on the"@) && has_substring(msg, "ban list."@) {
        BanFailure::AlreadyBanned
    } else if has_substring(
        msg,
        "You are not authorized to handle matters relating to Border Control"@,
    ) {
        BanFailure::NotAllowed
    } else {
        BanFailure::Unknown
    }
}

/// Read the failure reason out of the remote service's error message.
pub fn classify_failure(msg: &str) -> (f: BanFailure)
    ensures
        f == spec_classify_failure(msg@),
{
    if str_contains(msg, "heavy nation-shifting assets are currently deployed") {
        BanFailure::TooFast
    } else if str_contains(msg, "don't have enough regional influence") {
        BanFailure::NoInfluence
    } else if str_contains(msg, "is already on the") && str_contains(msg, "ban list.") {
        BanFailure::AlreadyBanned
    } else if str_contains(
        msg,
        "You are not authorized to handle matters relating to Border Control",
    ) {
        BanFailure::NotAllowed
    } else {
        BanFailure::Unknown
    }
}

/// The security check value the markup carries in its first element named
/// "chk", if any: a function of the markup alone.
pub uninterp spec fn page_chk(body: Seq<char>) -> Option<Seq<char>>;

/// Whether the markup has an element of class "info", the success marker: a
/// function of the markup alone.
pub uninterp spec fn page_has_info(body: Seq<char>) -> bool;

/// The text of the markup's first element of class "error", if any: a
/// function of the markup alone.
pub uninterp spec fn page_error_text(body: Seq<char>) -> Option<Seq<char>>;

/// Relies on select's Document::from and Document::find with the predicate
/// Attr("name", "chk"): the "value" attribute of the page's first element
/// named "chk", a pure function of the markup.
#[verifier::external_body]
fn extract_chk(body: &str) -> (r: Option<String>)
    ensures
        r is Some == page_chk(body@) is Some,
        r matches Some(s) ==> page_chk(body@) == Some(s@),
{
    let document = Document::from(body);
    let node = document.find(Attr("name", "chk")).next();
    node.and_then(|n| n.attr("value")).map(|v| v.to_string())
}

/// Relies on select's Document::from and Document::find with the predicate
/// Class("info"): whether the page has an element of class "info", a pure
/// function of the markup.
#[verifier::external_body]
fn find_info_marker(body: &str) -> (r: bool)
    ensures
        r == page_has_info(body@),
{
    let document = Document::from(body);
    document.find(Class("info")).next().is_some()
}

/// Relies on select's Document::from, Document::find with the predicate
/// Class("error"), and Node::text: the text of the page's first element of
/// class "error", a pure function of the markup.
#[verifier::external_body]
fn extract_error_text(body: &str) -> (r: Option<String>)
    ensures
        r is Some == page_error_text(body@) is Some,
        r matches Some(s) ==> page_error_text(body@) == Some(s@),
{
    let document = Document::from(body);
    document.find(Class("error")).next().map(|n| n.text())
}

/// What a response page means for one engagement attempt: the success marker
/// wins; otherwise the error text names the failure, and a page with neither
/// is an unknown failure.
pub open spec fn spec_ban_outcome(body: Seq<char>) -> BanResult {
    if page_has_info(body) {
        BanResult::Success
    } else {
        match page_error_text(body) {
            Some(msg) => BanResult::Failure(spec_classify_failure(msg)),
            None => BanResult::Failure(BanFailure::Unknown),
        }
    }
}

/// The security token a session holds after absorbing a response page: the
/// page's check value when it has one, the old token otherwise.
pub open spec fn refreshed_chk(old_chk: Seq<char>, body: Seq<char>) -> Seq<char> {
    match page_chk(body) {
        Some(c) => c,
        None => old_chk,
    }
}

/// What the contracts see of a session: its security check value, its
/// session cookie, and the region it acts on.
pub struct SessionView {
    pub chk: Seq<char>,
    pub pin: Seq<char>,
    pub region: Seq<char>,
}

/// Convenient bucket to store cookies and security check values.
pub struct Session {
    chk: String,  // Security check value - refreshed after every attempted ban
    pin: String,  // Session cookie - set on successful login
    pub region: String,  // Region we are yeeting people from
}

impl View for Session {
    type V = SessionView;

    closed spec fn view(&self) -> SessionView {
        SessionView { chk: self.chk@, pin: self.pin@, region: self.region@ }
    }
}

/// Everything a privileged page fetch needs: the region, the session cookie,
/// and the authorization pulse that gates the request.
pub struct PageRequest {
    pub region: String,
    pub pin: String,
    pub userclick: u128,
}

/// Everything one ban submission needs: the region, the session cookie, the
/// current security check value, the target, and the authorization pulse.
pub struct BanRequest {
    pub region: String,
    pub pin: String,
    pub chk: String,
    pub nation: String,
    pub userclick: u128,
}

impl Session {
    /// A fresh session for a region: no cookie and no check value yet.
    pub fn new(region: String) -> (s: Session)
        ensures
            s@.region == region@,
            s@.chk == Seq::<char>::empty(),
            s@.pin == Seq::<char>::empty(),
    {
        Session { chk: String::new(), pin: String::new(), region }
    }

    /// Convince the session that it's actually operating in a different
    /// region than the nation it's using lives in.
    pub fn override_region(&mut self, region: &str)
        ensures
            final(self)@.region == region@,
            final(self)@.chk == old(self)@.chk,
            final(self)@.pin == old(self)@.pin,
    {
        self.region = region.to_owned();
    }

    /// Record the session cookie a successful login handed back.
    pub fn set_pin(&mut self, pin: String)
        ensures
            final(self)@.pin == pin@,
            final(self)@.chk == old(self)@.chk,
            final(self)@.region == old(self)@.region,
    {
        self.pin = pin;
    }

    /// Harvest the security check value from a response page, keeping the
    /// old one when the page carries none.
    pub fn absorb_chk(&mut self, body: &str)
        ensures
            final(self)@.chk == refreshed_chk(old(self)@.chk, body@),
            final(self)@.pin == old(self)@.pin,
            final(self)@.region == old(self)@.region,
    {
        match extract_chk(body) {
            Some(c) => {
                self.chk = c;
            },
            None => {},
        }
    }

    /// The parts of the arming fetch, whose sole purpose is to harvest the
    /// first check value; a zero authorization pulse is a contract violation
    /// and is refused outright.
    pub fn arm_request(&self, userclick: u128) -> (r: PageRequest)
        requires
            userclick != 0,
        ensures
            r.region@ == self@.region,
            r.pin@ == self@.pin,
            r.userclick == userclick,
    {
        PageRequest { region: self.region.clone(), pin: self.pin.clone(), userclick }
    }

    /// The parts of one ban submission against a target; a zero authorization
    /// pulse is a contract violation and is refused outright.
    pub fn ban_request(&self, nation: &String, userclick: u128) -> (r: BanRequest)
        requires
            userclick != 0,
        ensures
            r.region@ == self@.region,
            r.pin@ == self@.pin,
            r.chk@ == self@.chk,
            r.nation@ == nation@,
            r.userclick == userclick,
    {
        BanRequest {
            region: self.region.clone(),
            pin: self.pin.clone(),
            chk: self.chk.clone(),
            nation: nation.clone(),
            userclick,
        }
    }

    /// Absorb the response page of one ban submission: refresh the check
    /// value whatever the outcome was, then read the outcome off the page.
    pub fn yeet_response(&mut self, body: &str) -> (r: BanResult)
        ensures
            r == spec_ban_outcome(body@),
            final(self)@.chk == refreshed_chk(old(self)@.chk, body@),
            final(self)@.pin == old(self)@.pin,
            final(self)@.region == old(self)@.region,
    {
        self.absorb_chk(body);
        if find_info_marker(body) {
            BanResult::Success
        } else {
            match extract_error_text(body) {
                Some(msg) => BanResult::Failure(classify_failure(msg.as_str())),
                None => BanResult::Failure(BanFailure::Unknown),
            }
        }
    }
}

} // verus!
