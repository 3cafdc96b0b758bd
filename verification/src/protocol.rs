//! The messages exchanged with the web extension and the errors of reading
//! and writing them.
use vstd::prelude::*;

verus! {

/// Where the focus is in the thread view: which message, whether it has the
/// focus, and which element of it.
#[derive(Clone, Debug, PartialEq, Eq)]
pub struct Focus {
    message_id: String,
    focus: bool,
    element: i32,
}

impl View for Focus {
    /// The message id, whether it has the focus, and the element.
    type V = (Seq<char>, bool, i32);

    closed spec fn view(&self) -> (Seq<char>, bool, i32) {
        (self.message_id@, self.focus, self.element)
    }
}

impl Focus {
    /// A focus on `element` of the message `message_id`.
    pub fn new(message_id: String, focus: bool, element: i32) -> (r: Focus)
        ensures
            r@ == (message_id@, focus, element),
    {
        Focus { message_id, focus, element }
    }

    /// The id of the focused message.
    pub fn message_id(&self) -> (r: &str)
        ensures
            r@ == self@.0,
    {
        self.message_id.as_str()
    }

    /// Whether the message has the focus.
    pub fn focus(&self) -> (r: bool)
        ensures
            r == self@.1,
    {
        self.focus
    }

    /// The focused element of the message.
    pub fn element(&self) -> (r: i32)
        ensures
            r == self@.2,
    {
        self.element
    }
}

/// Direction of a navigation step.
#[derive(Clone, Copy, Debug, PartialEq, Eq, Structural)]
pub enum NavigateDirection {
    Undefined,
    Specific,
    Up,
    Down,
}

/// Kind of a navigation step.
#[derive(Clone, Copy, Debug, PartialEq, Eq, Structural)]
pub enum NavigateType {
    /// Move one element, scrolling if necessary (default movement).
    VisualElement,
    /// Move one visual step regardless of element, update focus if necessary.
    Visual,
    /// Move one visual big step, update focus if necessary.
    VisualBig,
    /// Move one visual big big step, update focus if necessary.
    VisualPage,
    /// Move to specific element, update focus (not directional).
    Element,
    /// Move one message, update focus.
    Message,
    /// Update focus to match view.
    FocusView,
    /// Top or bottom.
    Extreme,
}

/// A message between the thread view and its web extension.
#[derive(Clone, Debug, PartialEq, Eq)]
pub enum Message {
    /// Acknowledges request `id`, with its success and the focus after it.
    Ack(i32, bool, Focus),
    Indent(bool),
    AllowRemoteImages(bool),
    /// Direction, type, message id, element, and whether to focus the top.
    Navigate(NavigateDirection, NavigateType, String, i32, bool),
    /// Message id and whether it is marked.
    Mark(String, bool),
    /// Message id and whether it is hidden.
    Hidden(String, bool),
    Debug(String),
}

/// A failed read or write on the stream, as the stream reported it: the
/// error domain, the code within that domain, and the message.
#[derive(Clone, Debug, PartialEq, Eq)]
pub struct IoError {
    pub domain: u32,
    pub code: i32,
    pub message: String,
}

/// bincode's `ErrorKind`, the error its encoder and decoder return (boxed as
/// `bincode::Error`).  Declared opaque: nothing is claimed of its content, it
/// is only carried inside `Error::serdeError`.
#[verifier::external_type_specification]
#[verifier::external_body]
pub struct ExBincodeErrorKind(bincode::ErrorKind);

/// Why a message could not be read or written.
#[allow(non_camel_case_types)]
#[derive(Debug)]
pub enum Error {
    /// The stream failed.
    ioError(IoError),
    /// The message could not be encoded or decoded.
    serdeError(Box<bincode::ErrorKind>),
}

impl From<IoError> for Error {
    fn from(err: IoError) -> (r: Error) {
        Error::ioError(err)
    }
}

impl vstd::std_specs::convert::FromSpecImpl<IoError> for Error {
    open spec fn obeys_from_spec() -> bool {
        true
    }

    open spec fn from_spec(err: IoError) -> Error {
        Error::ioError(err)
    }
}

impl From<Box<bincode::ErrorKind>> for Error {
    fn from(err: Box<bincode::ErrorKind>) -> (r: Error) {
        Error::serdeError(err)
    }
}

impl vstd::std_specs::convert::FromSpecImpl<Box<bincode::ErrorKind>> for Error {
    open spec fn obeys_from_spec() -> bool {
        true
    }

    open spec fn from_spec(err: Box<bincode::ErrorKind>) -> Error {
        Error::serdeError(err)
    }
}

} // verus!
