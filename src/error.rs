use vstd::prelude::*;

verus! {

/// One failure reported to the user.
#[derive(Debug, Clone)]
pub enum ErrorType {
    /// A file could not be opened, read or written: the kind of failure and its cause.
    IO(String, String),
    /// A buffer operation was given rows that the buffer does not hold, or the buffer is empty.
    Range,
    /// A key that is bound to nothing, or that the pending operation does not accept.
    InvalidCommand,
    /// Any other failure, with its message.
    Specific(String),
}

/// The queue of failures waiting to be shown, oldest first.
#[derive(Debug, Clone)]
pub struct AppError {
    errors: Vec<ErrorType>,
}

impl View for AppError {
    type V = Seq<ErrorType>;

    closed spec fn view(&self) -> Seq<ErrorType> {
        self.errors@
    }
}

impl ErrorType {
    /// A queue that holds this failure alone.
    pub fn pack(self) -> (r: AppError)
        ensures
            r@ == seq![self],
    {
        let mut errors: Vec<ErrorType> = Vec::new();
        errors.push(self);
        AppError { errors }
    }
}

impl AppError {
    pub fn new() -> (r: AppError)
        ensures
            r@ == Seq::<ErrorType>::empty(),
    {
        AppError { errors: Vec::new() }
    }

    pub fn empty(&self) -> (r: bool)
        ensures
            r == (self@.len() == 0),
    {
        self.errors.len() == 0
    }

    pub fn add_error(&mut self, error: ErrorType)
        ensures
            final(self)@ == old(self)@.push(error),
    {
        self.errors.push(error);
    }

    /// Moves every failure of `other` to the back of the queue, in order.
    pub fn append_errors(&mut self, other: AppError)
        ensures
            final(self)@ == old(self)@ + other@,
    {
        let mut rest = other.errors;
        self.errors.append(&mut rest);
    }

    /// The failures of the queue, oldest first.
    pub fn into_iter(self) -> (r: Vec<ErrorType>)
        ensures
            r@ == self@,
    {
        self.errors
    }

    /// The oldest failure.
    pub fn get_first(&self) -> (r: &ErrorType)
        requires
            self@.len() > 0,
        ensures
            *r == self@[0],
    {
        &self.errors[0]
    }

    /// Drops the oldest failure.
    pub fn throw(&mut self)
        requires
            old(self)@.len() > 0,
        ensures
            final(self)@ == old(self)@.drop_first(),
    {
        self.errors.remove(0);
    }

    pub fn clear(&mut self)
        ensures
            final(self)@ == Seq::<ErrorType>::empty(),
    {
        self.errors.clear();
    }
}

} // verus!
