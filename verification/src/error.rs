//! What can go wrong between the helper and the compositor.

use vstd::prelude::*;

verus! {

/// Why a request to the compositor failed.
#[derive(Debug)]
pub enum Error {
    Connect(String),
    MissingGlobal(&'static str),
    NoInputDevice,
    NoOutputs,
    /// Nothing arrived within this many milliseconds.
    Timeout(u64),
    Wayland(String),
}

/// What an error says, over the characters of its texts.
#[verifier::ext_equal]
pub enum ErrorView {
    Connect(Seq<char>),
    MissingGlobal(Seq<char>),
    NoInputDevice,
    NoOutputs,
    Timeout(u64),
    Wayland(Seq<char>),
}

impl View for Error {
    type V = ErrorView;

    open spec fn view(&self) -> ErrorView {
        match self {
            Error::Connect(e) => ErrorView::Connect(e@),
            Error::MissingGlobal(g) => ErrorView::MissingGlobal(g@),
            Error::NoInputDevice => ErrorView::NoInputDevice,
            Error::NoOutputs => ErrorView::NoOutputs,
            Error::Timeout(t) => ErrorView::Timeout(*t),
            Error::Wayland(e) => ErrorView::Wayland(e@),
        }
    }
}

/// How a number of milliseconds is written as a duration.
pub uninterp spec fn duration_text(millis: u64) -> Seq<char>;

/// The `Debug` output of `Duration::from_millis`, which depends on the number alone.
#[verifier::external_body]
fn shown_duration(millis: u64) -> (r: String)
    ensures
        r@ == duration_text(millis),
{
    format!("{:?}", std::time::Duration::from_millis(millis))
}

/// The message for an error; `waited` is how the time of a timeout is written.
pub open spec fn message_text(e: ErrorView, waited: Seq<char>) -> Seq<char> {
    match e {
        ErrorView::Connect(m) => "cannot connect to Wayland display: "@ + m,
        ErrorView::MissingGlobal(g) => "compositor does not expose "@ + g,
        ErrorView::NoInputDevice => "seat has neither pointer nor touch capability"@,
        ErrorView::NoOutputs => "compositor reported no outputs"@,
        ErrorView::Timeout(_) => "no pointer enter event within "@ + waited,
        ErrorView::Wayland(m) => "wayland error: "@ + m,
    }
}

/// The message for an error.
pub open spec fn full_message(e: ErrorView) -> Seq<char> {
    message_text(
        e,
        match e {
            ErrorView::Timeout(t) => duration_text(t),
            _ => seq![],
        },
    )
}

/// One text behind another.
pub fn joined(a: &str, b: &str) -> (r: String)
    ensures
        r@ == a@ + b@,
{
    a.to_owned().concat(b)
}

impl Error {
    /// The message for the error, given how the time of a timeout is written.
    pub fn message_with(&self, waited: &str) -> (r: String)
        ensures
            r@ == message_text(self@, waited@),
    {
        match self {
            Error::Connect(e) => joined("cannot connect to Wayland display: ", e),
            Error::MissingGlobal(g) => joined("compositor does not expose ", g),
            Error::NoInputDevice => "seat has neither pointer nor touch capability".to_owned(),
            Error::NoOutputs => "compositor reported no outputs".to_owned(),
            Error::Timeout(_) => joined("no pointer enter event within ", waited),
            Error::Wayland(e) => joined("wayland error: ", e),
        }
    }

    /// The message for the error.
    pub fn message(&self) -> (r: String)
        ensures
            r@ == full_message(self@),
    {
        match self {
            Error::Timeout(t) => self.message_with(&shown_duration(*t)),
            _ => self.message_with(""),
        }
    }
}

/// Messages tell errors apart: two with the same message are of one kind and tell the same.
pub proof fn law_messages_tell_errors_apart(
    a: ErrorView,
    b: ErrorView,
    waited: Seq<char>,
    longer: Seq<char>,
)
    requires
        message_text(a, waited) == message_text(b, longer),
    ensures
        match (a, b) {
            (ErrorView::Connect(m), ErrorView::Connect(n)) => m == n,
            (ErrorView::MissingGlobal(m), ErrorView::MissingGlobal(n)) => m == n,
            (ErrorView::NoInputDevice, ErrorView::NoInputDevice) => true,
            (ErrorView::NoOutputs, ErrorView::NoOutputs) => true,
            (ErrorView::Timeout(_), ErrorView::Timeout(_)) => waited == longer,
            (ErrorView::Wayland(m), ErrorView::Wayland(n)) => m == n,
            _ => false,
        },
{
    reveal_strlit("cannot connect to Wayland display: ");
    reveal_strlit("compositor does not expose ");
    reveal_strlit("seat has neither pointer nor touch capability");
    reveal_strlit("compositor reported no outputs");
    reveal_strlit("no pointer enter event within ");
    reveal_strlit("wayland error: ");
    let s = message_text(a, waited);
    let t = message_text(b, longer);
    assert(s[0] == t[0] && s[1] == t[1] && s[11] == t[11]);
    lemma_message_end(a, waited);
    lemma_message_end(b, longer);
}

/// What an error tells beside its kind.
pub open spec fn told_by(e: ErrorView, waited: Seq<char>) -> Seq<char> {
    match e {
        ErrorView::Connect(m) => m,
        ErrorView::MissingGlobal(g) => g,
        ErrorView::Timeout(_) => waited,
        ErrorView::Wayland(m) => m,
        _ => seq![],
    }
}

proof fn lemma_message_end(e: ErrorView, waited: Seq<char>)
    ensures
        ({
            let s = message_text(e, waited);
            let n: int = match e {
                ErrorView::Connect(_) => "cannot connect to Wayland display: "@.len() as int,
                ErrorView::MissingGlobal(_) => "compositor does not expose "@.len() as int,
                ErrorView::Timeout(_) => "no pointer enter event within "@.len() as int,
                ErrorView::Wayland(_) => "wayland error: "@.len() as int,
                _ => s.len() as int,
            };
            s.skip(n) == told_by(e, waited)
        }),
{
    let s = message_text(e, waited);
    match e {
        ErrorView::Connect(m) => {
            assert(s.skip("cannot connect to Wayland display: "@.len() as int) =~= m);
        },
        ErrorView::MissingGlobal(g) => {
            assert(s.skip("compositor does not expose "@.len() as int) =~= g);
        },
        ErrorView::Timeout(_) => {
            assert(s.skip("no pointer enter event within "@.len() as int) =~= waited);
        },
        ErrorView::Wayland(m) => {
            assert(s.skip("wayland error: "@.len() as int) =~= m);
        },
        _ => {
            assert(s.skip(s.len() as int) =~= seq![]);
        },
    }
}

/// A message ends with what the error tells, which is the time that was waited, shown as a
/// duration, where nothing came in time.
pub proof fn law_message_ends_with_what_is_told(e: ErrorView, waited: Seq<char>, millis: u64)
    ensures
        ({
            let s = message_text(e, waited);
            let told = told_by(e, waited);
            s.len() >= told.len() && s.skip(s.len() - told.len()) == told
        }),
        full_message(ErrorView::Timeout(millis)) == message_text(
            ErrorView::Timeout(millis),
            duration_text(millis),
        ),
        !(e is Timeout) ==> full_message(e) == message_text(e, waited),
{
    lemma_message_end(e, waited);
    let s = message_text(e, waited);
    let told = told_by(e, waited);
    match e {
        ErrorView::NoInputDevice | ErrorView::NoOutputs => {
            assert(s.skip(s.len() - told.len()) =~= told);
        },
        _ => {},
    }
}

} // verus!
