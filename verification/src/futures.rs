//! The decisions of the combinators that wait for two things at once. The
//! caller polls; these functions say which outcome counts.

use vstd::prelude::*;

verus! {

/// What one poll came to.
#[derive(Debug)]
pub enum Poll<T> {
    /// The value is there.
    Ready(T),
    /// Not yet.
    Pending,
}

/// Which of two outcomes came first.
#[derive(Debug)]
pub enum Select2<A, B> {
    /// The first.
    A(A),
    /// The second.
    B(B),
}

/// One poll of `f`.
pub fn poll_fn<T, F: FnOnce() -> Poll<T>>(f: F) -> (r: Poll<T>)
    requires
        f.requires(()),
    ensures
        f.ensures((), r),
{
    f()
}

/// One poll of what never resolves.
pub fn never<T>() -> (r: Poll<T>)
    ensures
        r is Pending,
{
    Poll::Pending
}

/// One poll of two things in a fixed order: the first has priority, and the
/// second is polled only where the first is pending.
pub fn select2<A, B, F: FnOnce() -> Poll<B>>(first: Poll<A>, second: F) -> (r: Poll<Select2<A, B>>)
    requires
        first is Pending ==> second.requires(()),
    ensures
        match first {
            Poll::Ready(a) => r == Poll::Ready(Select2::<A, B>::A(a)),
            Poll::Pending => match r {
                Poll::Ready(Select2::B(b)) => second.ensures((), Poll::Ready(b)),
                Poll::Ready(Select2::A(_)) => false,
                Poll::Pending => second.ensures((), Poll::Pending),
            },
        },
{
    match first {
        Poll::Ready(a) => Poll::Ready(Select2::A(a)),
        Poll::Pending => match second() {
            Poll::Ready(b) => Poll::Ready(Select2::B(b)),
            Poll::Pending => Poll::Pending,
        },
    }
}

/// One poll of something against a timer: the thing itself has priority,
/// and the timer is polled only where it is pending. An expired timer is an
/// error.
pub fn timeout<T, F: FnOnce() -> Poll<()>>(fut: Poll<T>, timer: F) -> (r: Poll<Result<T, ()>>)
    requires
        fut is Pending ==> timer.requires(()),
    ensures
        match fut {
            Poll::Ready(t) => r == Poll::Ready(Ok::<T, ()>(t)),
            Poll::Pending => match r {
                Poll::Ready(x) => x is Err && timer.ensures((), Poll::Ready(())),
                Poll::Pending => timer.ensures((), Poll::Pending),
            },
        },
{
    match fut {
        Poll::Ready(t) => Poll::Ready(Ok(t)),
        Poll::Pending => {
            let fired: Poll<()> = timer();
            match fired {
                Poll::Ready(unit) => {
                    assert(fired == Poll::Ready(()));
                    Poll::Ready(Err(unit))
                },
                Poll::Pending => Poll::Pending,
            }
        },
    }
}

} // verus!
