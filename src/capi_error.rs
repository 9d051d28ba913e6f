use vstd::prelude::*;

verus! {

/// An error raised at the foreign-function boundary, with a fixed message.
#[derive(Debug)]
pub struct CApiError {
    message: &'static str,
}

impl CApiError {
    pub closed spec fn message_spec(&self) -> Seq<char> {
        self.message@
    }

    pub fn new(message: &'static str) -> (r: CApiError)
        ensures
            r.message_spec() == message@,
    {
        CApiError { message }
    }

    /// The message, as the error displays it.
    pub fn message(&self) -> (r: &'static str)
        ensures
            r@ == self.message_spec(),
    {
        self.message
    }
}

/// Opaque handle to an instance, as the foreign caller holds it.
#[allow(non_camel_case_types)]
pub struct vm_exec_instance_t;

/// Opaque handle to compilation options, as the foreign caller holds it.
#[allow(non_camel_case_types)]
pub struct vm_exec_compilation_options_t;

} // verus!
