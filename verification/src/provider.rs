//! The types under which the engine is registered with `gato_core`'s
//! kernel.  The registration itself — implementing the kernel's `HttpCore`
//! and `Provider` traits and running the listening socket — is the
//! surrounding application's part; these types carry no state of their
//! own.

use vstd::prelude::*;

verus! {

/// The engine as an HTTP core: the application registers it with the
/// kernel and runs the accept loop under its name.
pub struct HttpServerHttpCore {}

impl HttpServerHttpCore {
    /// A fresh core.
    pub fn new() -> (r: Self)
        ensures
            r == (HttpServerHttpCore {  }),
    {
        HttpServerHttpCore {  }
    }
}

/// The service provider that hands the HTTP core to the kernel during
/// boot.
pub struct HttpServerServiceProvider {}

impl HttpServerServiceProvider {
    /// A fresh provider, boxed as the kernel's boot takes it.
    pub fn new() -> (r: Box<Self>)
        ensures
            *r == (HttpServerServiceProvider {  }),
    {
        Box::new(HttpServerServiceProvider {  })
    }
}

} // verus!
