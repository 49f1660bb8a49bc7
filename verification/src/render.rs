use vstd::prelude::*;
use vstd::string::{StrSliceExecFns, StringExecFns};

verus! {

/// A receiver of formatted output pieces.
///
/// Formatting routines hand their output to this interface piece by piece,
/// so the same code can either build an owned string or check the output
/// against an expected string without allocating one.
pub trait Sink {
    /// Internal consistency of the receiver.
    spec fn inv(&self) -> bool;

    /// The characters fed to the receiver so far.
    spec fn fed(&self) -> Seq<char>;

    /// What the receiver checks the output against; a plain accumulator
    /// has no such string and returns the empty sequence. Feeding output
    /// never changes it.
    spec fn target(&self) -> Seq<char>;

    /// Accepts the next piece of output.
    fn put(&mut self, piece: &str)
        requires
            old(self).inv(),
        ensures
            final(self).inv(),
            final(self).fed() == old(self).fed() + piece@,
            final(self).target() == old(self).target(),
    ;
}

/// A sink that accumulates the whole output into an owned string.
pub struct StringSink {
    pub out: String,
}

impl StringSink {
    pub fn new() -> (r: StringSink)
        ensures
            r.inv(),
            r.fed() == Seq::<char>::empty(),
    {
        StringSink { out: String::new() }
    }

    pub fn into_string(self) -> (r: String)
        ensures
            r@ == self.fed(),
    {
        self.out
    }
}

impl Sink for StringSink {
    open spec fn inv(&self) -> bool {
        true
    }

    open spec fn fed(&self) -> Seq<char> {
        self.out@
    }

    open spec fn target(&self) -> Seq<char> {
        Seq::empty()
    }

    fn put(&mut self, piece: &str) {
        self.out.append(piece);
    }
}

/// A sink that checks the output against an expected string, piece by
/// piece, without building the output: it keeps a cursor into the
/// expected characters and fails at the first difference.
pub struct DisplayCompare<'a> {
    /// The expected string.
    pub expected: &'a str,
    /// The character length of the expected string.
    pub len: usize,
    /// How many characters have matched so far.
    pub pos: usize,
    /// Whether everything fed so far matched.
    pub ok: bool,
    /// The characters fed so far, kept only for the proofs.
    pub seen: Ghost<Seq<char>>,
}

impl DisplayCompare<'_> {
    /// Starts a comparison against `expected`.
    pub fn new(expected: &str) -> (r: DisplayCompare<'_>)
        ensures
            r.inv(),
            r.fed() == Seq::<char>::empty(),
            r.expected@ == expected@,
    {
        let len = expected.unicode_len();
        let r = DisplayCompare { expected, len, pos: 0, ok: true, seen: Ghost(Seq::empty()) };
        proof {
            assert(r.seen@ =~= expected@.subrange(0, 0));
        }
        r
    }

    /// Whether the output fed so far is the whole expected string.
    pub fn matched(&self) -> (b: bool)
        requires
            self.inv(),
        ensures
            b == (self.fed() == self.expected@),
    {
        proof {
            if self.ok {
                assert(self.expected@.subrange(0, self.expected@.len() as int) =~= self.expected@);
                if self.pos < self.len {
                    assert(self.fed().len() != self.expected@.len());
                }
            } else {
                if self.fed() == self.expected@ {
                    assert(self.fed() =~= self.expected@.subrange(0, self.fed().len() as int));
                    assert(self.fed().is_prefix_of(self.expected@));
                }
            }
        }
        self.ok && self.pos == self.len
    }
}

impl<'a> Sink for DisplayCompare<'a> {
    open spec fn inv(&self) -> bool {
        &&& self.len == self.expected@.len()
        &&& self.pos <= self.len
        &&& (self.ok ==> self.seen@ == self.expected@.subrange(0, self.pos as int))
        &&& (!self.ok ==> !self.seen@.is_prefix_of(self.expected@))
    }

    open spec fn fed(&self) -> Seq<char> {
        self.seen@
    }

    open spec fn target(&self) -> Seq<char> {
        self.expected@
    }

    fn put(&mut self, piece: &str) {
        let ghost prior = self.seen@;
        let ghost grown = self.seen@ + piece@;
        if !self.ok {
            self.seen = Ghost(grown);
            proof {
                if grown.is_prefix_of(self.expected@) {
                    assert(prior =~= grown.subrange(0, prior.len() as int));
                    assert(prior =~= self.expected@.subrange(0, prior.len() as int));
                    assert(prior.is_prefix_of(self.expected@));
                }
            }
            return ;
        }
        let l = piece.unicode_len();
        if l > self.len - self.pos {
            self.ok = false;
            self.seen = Ghost(grown);
            proof {
                assert(grown.len() > self.expected@.len());
            }
            return ;
        }
        let mut i: usize = 0;
        while i < l
            invariant
                i <= l,
                l as nat == piece@.len(),
                self == old(self),
                self.inv(),
                self.ok,
                self.pos + l <= self.len,
                prior == self.seen@,
                grown == self.seen@ + piece@,
                forall|q: int|
                    0 <= q < i ==> piece@[q] == self.expected@[self.pos + q],
            decreases l - i,
        {
            let c1 = piece.get_char(i);
            let c2 = self.expected.get_char(self.pos + i);
            if c1 != c2 {
                self.ok = false;
                self.seen = Ghost(grown);
                proof {
                    assert(grown[self.pos + i] == piece@[i as int]);
                    if grown.is_prefix_of(self.expected@) {
                        assert(grown[self.pos + i] == self.expected@[self.pos + i]);
                    }
                }
                return ;
            }
            i = i + 1;
        }
        self.pos = self.pos + l;
        self.seen = Ghost(grown);
        proof {
            assert(self.seen@ =~= self.expected@.subrange(0, self.pos as int));
        }
    }
}

} // verus!
