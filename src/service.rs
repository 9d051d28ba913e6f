use vstd::prelude::*;

verus! {

/// The executor service: remembers the last error it was told about.
#[derive(Default)]
pub struct BasicExecutorService {
    pub last_error: String,
}

impl BasicExecutorService {
    pub fn new() -> (r: BasicExecutorService)
        ensures
            r.last_error@ == Seq::<char>::empty(),
    {
        BasicExecutorService { last_error: String::new() }
    }

    pub fn update_last_error_str(&mut self, err_str: String)
        ensures
            final(self).last_error@ == err_str@,
    {
        self.last_error = err_str;
    }

    pub fn get_last_error_string(&self) -> (r: String)
        ensures
            r@ == self.last_error@,
    {
        self.last_error.clone()
    }
}

} // verus!
