//! The destination a renderer writes to: an abstract sink of text whose
//! write may fail, and two concrete sinks — one that accepts everything,
//! one that fails once full, for exercising a renderer against write
//! failures.

use vstd::prelude::*;

verus! {

/// A sink rejected a write.
#[derive(Clone, Copy, PartialEq, Eq, Structural, Debug)]
pub struct WriteError;

/// An abstract destination for rendered text. `content()` is the text the
/// sink has accepted so far.
pub trait Sink {
    spec fn content(&self) -> Seq<char>;

    /// Whether this sink accepts every write: writes to such a sink never
    /// report failure.
    spec fn accepts_all(&self) -> bool;

    /// Appends `s` to the sink. On failure the sink keeps its old content
    /// extended by some prefix of `s`: a write may fail partway.
    fn write_str(&mut self, s: &str) -> (res: Result<(), WriteError>)
        ensures
            old(self).accepts_all() ==> res is Ok,
            res is Ok ==> final (self).content() == old(self).content() + s@,
            res is Err ==> exists|n: int|
                0 <= n <= s@.len() && final (self).content() == old(self).content() + s@.subrange(
                    0,
                    n,
                ),
    ;
}

/// A sink that accepts everything into a growing string.
pub struct StringSink {
    pub text: String,
}

impl StringSink {
    /// An empty sink.
    pub fn new() -> (r: StringSink)
        ensures
            r.text@ == Seq::<char>::empty(),
    {
        StringSink { text: String::new() }
    }
}

impl Sink for StringSink {
    open spec fn content(&self) -> Seq<char> {
        self.text@
    }

    open spec fn accepts_all(&self) -> bool {
        true
    }

    fn write_str(&mut self, s: &str) -> (res: Result<(), WriteError>)
        ensures
            res is Ok,
    {
        self.text.append(s);
        Ok(())
    }
}

/// A sink that accepts at most `capacity` characters and fails on the next
/// one, keeping what fit: a stand-in for a destination that stops taking
/// bytes partway through a line.
pub struct FailingSink {
    pub text: Vec<char>,
    pub capacity: usize,
}

impl FailingSink {
    /// An empty sink that will accept `capacity` characters.
    pub fn new(capacity: usize) -> (r: FailingSink)
        ensures
            r.text@ == Seq::<char>::empty(),
            r.capacity == capacity,
    {
        FailingSink { text: Vec::new(), capacity }
    }
}

impl Sink for FailingSink {
    open spec fn content(&self) -> Seq<char> {
        self.text@
    }

    open spec fn accepts_all(&self) -> bool {
        false
    }

    fn write_str(&mut self, s: &str) -> (res: Result<(), WriteError>)
        ensures
            old(self).text@.len() + s@.len() <= old(self).capacity ==> res is Ok,
            s@.len() > 0 && old(self).text@.len() + s@.len() > old(self).capacity ==> res is Err,
            res is Err ==> old(self).text@.len() + s@.len() > old(self).capacity,
            res is Err ==> final (self).text@ == old(self).text@ + s@.subrange(
                0,
                if old(self).text@.len() >= old(self).capacity {
                    0
                } else {
                    old(self).capacity as int - old(self).text@.len() as int
                },
            ),
            final (self).capacity == old(self).capacity,
    {
        let n = s.unicode_len();
        let mut i: usize = 0;
        while i < n
            invariant
                n == s@.len(),
                i <= n,
                self.capacity == old(self).capacity,
                self.text@ == old(self).text@ + s@.subrange(0, i as int),
                i > 0 ==> old(self).text@.len() + i <= old(self).capacity,
            decreases n - i,
        {
            if self.text.len() >= self.capacity {
                proof {
                    assert(self.text@ == old(self).text@ + s@.subrange(0, i as int));
                }
                return Err(WriteError);
            }
            let c = s.get_char(i);
            self.text.push(c);
            proof {
                assert(s@.subrange(0, i + 1 as int) =~= s@.subrange(0, i as int).push(c));
            }
            i = i + 1;
        }
        proof {
            assert(s@.subrange(0, n as int) =~= s@);
        }
        Ok(())
    }
}

} // verus!
