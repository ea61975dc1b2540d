//! Where generated text goes.
use crate::model::builder::Chunk;
use vstd::prelude::*;

verus! {

/// Why an output could not take what was written to it.
#[derive(Debug, Clone, PartialEq, Eq)]
pub struct OutputError {
    pub message: String,
}

/// A sink for text. `written` is all the text that the sink has taken so
/// far, in order. `answers` says which answers the sink, as it is, can give
/// when it is handed a text: that it took it, or that it did not.
pub trait Output {
    spec fn written(&self) -> Seq<char>;

    spec fn answers(&self, data: Seq<char>, took: bool) -> bool;

    /// Says that what follows belongs to `chunk`. A sink may write a header
    /// of its own.
    fn start_chunk(&mut self, chunk: &Chunk) -> (r: Result<(), OutputError>);

    /// Says that `chunk` is complete.
    fn end_chunk(&mut self, chunk: &Chunk) -> (r: Result<(), OutputError>);

    /// Writes `data`: hands it to the sink, and says what the sink
    /// answered.
    fn write_str(&mut self, data: &str) -> (r: Result<(), OutputError>)
        ensures
            old(self).answers(data@, r is Ok),
            r is Ok ==> final(self).written() == old(self).written() + data@,
    ;

    /// Writes the one character `data`.
    fn write(&mut self, data: char) -> (r: Result<(), OutputError>)
        ensures
            old(self).answers(seq![data], r is Ok),
            r is Ok ==> final(self).written() == old(self).written().push(data),
    ;

    /// Ends the line: writes a line feed.
    fn newline(&mut self) -> (r: Result<(), OutputError>)
        ensures
            old(self).answers(seq!['\n'], r is Ok),
            r is Ok ==> final(self).written() == old(self).written().push('\n'),
    ;
}

/// An output that keeps what is written to it in memory.
#[derive(Debug, Clone, PartialEq, Eq)]
pub struct Buffer {
    data: String,
}

impl View for Buffer {
    type V = Seq<char>;

    closed spec fn view(&self) -> Seq<char> {
        self.data@
    }
}

impl Default for Buffer {
    /// The buffer that holds nothing yet.
    fn default() -> (r: Buffer)
        ensures
            r@ == Seq::<char>::empty(),
    {
        Buffer { data: String::new() }
    }
}

impl Buffer {
    /// All that was written, as one string.
    pub fn to_string(&self) -> (r: String)
        ensures
            r@ == self@,
    {
        self.data.clone()
    }
}

impl Output for Buffer {
    open spec fn written(&self) -> Seq<char> {
        self@
    }

    /// A buffer takes every text.
    open spec fn answers(&self, data: Seq<char>, took: bool) -> bool {
        took
    }

    /// Writes nothing: a buffer does not mark its chunks.
    fn start_chunk(&mut self, chunk: &Chunk) -> (r: Result<(), OutputError>)
        ensures
            r is Ok,
            final(self)@ == old(self)@,
    {
        Ok(())
    }

    /// Writes nothing.
    fn end_chunk(&mut self, chunk: &Chunk) -> (r: Result<(), OutputError>)
        ensures
            r is Ok,
            final(self)@ == old(self)@,
    {
        Ok(())
    }

    fn write_str(&mut self, data: &str) -> (r: Result<(), OutputError>)
        ensures
            r is Ok,
            final(self)@ == old(self)@ + data@,
    {
        self.data.append(data);
        Ok(())
    }

    fn write(&mut self, data: char) -> (r: Result<(), OutputError>)
        ensures
            r is Ok,
            final(self)@ == old(self)@.push(data),
    {
        self.data.push(data);
        Ok(())
    }

    fn newline(&mut self) -> (r: Result<(), OutputError>)
        ensures
            r is Ok,
            final(self)@ == old(self)@.push('\n'),
    {
        self.data.push('\n');
        Ok(())
    }
}

/// An output that hands what is written to it to a function of the
/// caller's, piece by piece: to print it, or to send it on. The function
/// says whether it took the piece. `written` is all that it has taken.
pub struct Sink<F: Fn(&str) -> bool> {
    send: F,
    taken: Ghost<Seq<char>>,
}

impl<F: Fn(&str) -> bool> Sink<F> {
    #[verifier::type_invariant]
    spec fn takes_every_text(self) -> bool {
        forall|data: &str| call_requires(self.send, (data,))
    }

    /// The sink that hands text to `send`. Nothing is written yet.
    pub fn new(send: F) -> (r: Self)
        requires
            forall|data: &str| call_requires(send, (data,)),
        ensures
            r.written() == Seq::<char>::empty(),
    {
        Sink { send, taken: Ghost(Seq::empty()) }
    }

    /// Whether the function, handed a text that reads `data`, can say
    /// that it took it, or that it did not, as `took` has it.
    pub closed spec fn can_say(&self, data: Seq<char>, took: bool) -> bool {
        exists|text: &str| text@ == data && #[trigger] call_ensures(self.send, (text,), took)
    }

    /// Hands `data` to the function. Succeeds where the function says that
    /// it took the text, and notes the text as written then; fails where
    /// the function says that it did not, and nothing is written then.
    fn hand_over(&mut self, data: &str) -> (r: Result<(), OutputError>)
        ensures
            old(self).can_say(data@, r is Ok),
            r is Ok ==> final(self).written() == old(self).written() + data@,
            r is Err ==> final(self).written() == old(self).written(),
            forall|text: Seq<char>, took: bool|
                #[trigger] final(self).can_say(text, took) == old(self).can_say(text, took),
    {
        proof {
            use_type_invariant(&*self);
        }
        let took = (self.send)(data);
        if took {
            proof {
                self.taken@ = self.taken@ + data@;
            }
        }
        assert(self.send == old(self).send);
        if took {
            Ok(())
        } else {
            Err(OutputError { message: "the sink did not take the text".to_owned() })
        }
    }
}

impl<F: Fn(&str) -> bool> Output for Sink<F> {
    closed spec fn written(&self) -> Seq<char> {
        self.taken@
    }

    /// A sink answers what its function can say.
    open spec fn answers(&self, data: Seq<char>, took: bool) -> bool {
        self.can_say(data, took)
    }

    /// Writes nothing: a sink does not mark its chunks.
    fn start_chunk(&mut self, chunk: &Chunk) -> (r: Result<(), OutputError>)
        ensures
            r is Ok,
            final(self).written() == old(self).written(),
    {
        Ok(())
    }

    /// Writes nothing.
    fn end_chunk(&mut self, chunk: &Chunk) -> (r: Result<(), OutputError>)
        ensures
            r is Ok,
            final(self).written() == old(self).written(),
    {
        Ok(())
    }

    /// Hands `data` to the function: succeeds where the function says that
    /// it took the text, fails where it says that it did not.
    fn write_str(&mut self, data: &str) -> (r: Result<(), OutputError>)
        ensures
            old(self).can_say(data@, r is Ok),
            r is Err ==> final(self).written() == old(self).written(),
    {
        self.hand_over(data)
    }

    /// Hands the text of the one character `data` to the function.
    fn write(&mut self, data: char) -> (r: Result<(), OutputError>)
        ensures
            old(self).can_say(seq![data], r is Ok),
            r is Err ==> final(self).written() == old(self).written(),
    {
        let mut text = String::new();
        text.push(data);
        assert(text@ =~= seq![data]);
        assert(self.written().push(data) =~= self.written() + text@);
        self.hand_over(text.as_str())
    }

    /// Hands a line feed to the function.
    fn newline(&mut self) -> (r: Result<(), OutputError>)
        ensures
            old(self).can_say(seq!['\n'], r is Ok),
            r is Err ==> final(self).written() == old(self).written(),
    {
        self.write('\n')
    }
}

} // verus!
