use vstd::prelude::*;
use vstd::string::StringExecFns;

verus! {

// ---------------------------------------------------------------------------
// Streamed markup extraction.
//
// A markup document is scanned as a stream of events (element open, element
// close, text run, and a terminal end-of-document or error event).  The
// extractor keeps a stack of currently-open element names; text encountered
// while the stack equals one of three fixed tag paths is unescaped and
// appended to that path's accumulator.  A malformed fragment is a local
// failure: scanning stops and whatever was accumulated so far is kept.
// ---------------------------------------------------------------------------

/// One event of a streamed markup parse, reduced to what the extractor
/// needs.  Anything else the scanner produces (self-closing elements,
/// comments, declarations, references) is `Other` and is skipped.
pub enum MarkupEvent {
    /// End of the document.
    Eof,
    /// An element opened; its name is pushed on the tag stack.
    Open { name: String },
    /// An element closed; the innermost open name is popped.
    Close,
    /// A run of (still escaped) character data.
    Text { raw: String },
    /// A malformed fragment; extraction stops here.
    Error,
    /// Any other event; ignored.
    Other,
}

impl View for MarkupEvent {
    type V = (int, Seq<char>);

    open spec fn view(&self) -> (int, Seq<char>) {
        match self {
            MarkupEvent::Eof => (0 as int, Seq::empty()),
            MarkupEvent::Open { name } => (1 as int, name@),
            MarkupEvent::Close => (2 as int, Seq::empty()),
            MarkupEvent::Text { raw } => (3 as int, raw@),
            MarkupEvent::Error => (4 as int, Seq::empty()),
            MarkupEvent::Other => (5 as int, Seq::empty()),
        }
    }
}

/// The event stream a markup document scans to, in document order, ending
/// with exactly one terminal event (end-of-document or error).  The stream
/// is a function of the document text alone.
pub uninterp spec fn markup_events(doc: Seq<char>) -> Seq<(int, Seq<char>)>;

/// What resolving entity and character references turns a text run into;
/// `None` when the run holds a malformed or unknown reference.  The result
/// is a function of the text alone.
pub uninterp spec fn unescape_of(raw: Seq<char>) -> Option<Seq<char>>;

/// The tag path of the error-message field.
pub open spec fn spec_error_path() -> Seq<Seq<char>> {
    seq!["FGenericCrashContext"@, "RuntimeProperties"@, "ErrorMessage"@]
}

/// The tag path of the call-stack field.
pub open spec fn spec_callstack_path() -> Seq<Seq<char>> {
    seq!["FGenericCrashContext"@, "RuntimeProperties"@, "CallStack"@]
}

/// The tag path of the user-description field.
pub open spec fn spec_user_description_path() -> Seq<Seq<char>> {
    seq!["FGenericCrashContext"@, "RuntimeProperties"@, "UserDescription"@]
}

/// Text accumulated for `path` from event `i` on, with `stack` currently
/// open: open events push a name, close events pop one, text events whose
/// stack equals the path contribute their unescaped run, and a terminal
/// event — or a run that fails to unescape — stops the walk.
pub open spec fn spec_extract_at(
    evs: Seq<(int, Seq<char>)>,
    i: int,
    stack: Seq<Seq<char>>,
    path: Seq<Seq<char>>,
) -> Seq<char>
    decreases evs.len() - i when 0 <= i <= evs.len()
{
    if i >= evs.len() {
        Seq::empty()
    } else {
        let e = evs[i];
        if e.0 == 1 {
            spec_extract_at(evs, i + 1, stack.push(e.1), path)
        } else if e.0 == 2 {
            spec_extract_at(
                evs,
                i + 1,
                if stack.len() == 0 {
                    stack
                } else {
                    stack.drop_last()
                },
                path,
            )
        } else if e.0 == 3 {
            match unescape_of(e.1) {
                Some(t) => (
                if stack == path {
                    t
                } else {
                    Seq::empty()
                }) + spec_extract_at(evs, i + 1, stack, path),
                None => Seq::empty(),
            }
        } else if e.0 == 5 {
            spec_extract_at(evs, i + 1, stack, path)
        } else {
            Seq::empty()
        }
    }
}

/// Text accumulated for `path` over the whole event stream.
pub open spec fn spec_extract(evs: Seq<(int, Seq<char>)>, path: Seq<Seq<char>>) -> Seq<char> {
    spec_extract_at(evs, 0, Seq::empty(), path)
}

/// The individual unescaped text fragments encountered under exactly
/// `path`, in document order, from event `i` on.
pub open spec fn spec_fragments_at(
    evs: Seq<(int, Seq<char>)>,
    i: int,
    stack: Seq<Seq<char>>,
    path: Seq<Seq<char>>,
) -> Seq<Seq<char>>
    decreases evs.len() - i when 0 <= i <= evs.len()
{
    if i >= evs.len() {
        Seq::empty()
    } else {
        let e = evs[i];
        if e.0 == 1 {
            spec_fragments_at(evs, i + 1, stack.push(e.1), path)
        } else if e.0 == 2 {
            spec_fragments_at(
                evs,
                i + 1,
                if stack.len() == 0 {
                    stack
                } else {
                    stack.drop_last()
                },
                path,
            )
        } else if e.0 == 3 {
            match unescape_of(e.1) {
                Some(t) => if stack == path {
                    seq![t] + spec_fragments_at(evs, i + 1, stack, path)
                } else {
                    spec_fragments_at(evs, i + 1, stack, path)
                },
                None => Seq::empty(),
            }
        } else if e.0 == 5 {
            spec_fragments_at(evs, i + 1, stack, path)
        } else {
            Seq::empty()
        }
    }
}

/// The fragments encountered under `path` over the whole event stream.
pub open spec fn spec_fragments(evs: Seq<(int, Seq<char>)>, path: Seq<Seq<char>>) -> Seq<
    Seq<char>,
> {
    spec_fragments_at(evs, 0, Seq::empty(), path)
}

proof fn lemma_extract_flatten_at(
    evs: Seq<(int, Seq<char>)>,
    i: int,
    stack: Seq<Seq<char>>,
    path: Seq<Seq<char>>,
)
    requires
        0 <= i <= evs.len(),
    ensures
        spec_extract_at(evs, i, stack, path) == spec_fragments_at(evs, i, stack, path).flatten(),
    decreases evs.len() - i,
{
    reveal_with_fuel(Seq::flatten, 2);
    if i < evs.len() {
        let e = evs[i];
        if e.0 == 1 {
            lemma_extract_flatten_at(evs, i + 1, stack.push(e.1), path);
        } else if e.0 == 2 {
            lemma_extract_flatten_at(
                evs,
                i + 1,
                if stack.len() == 0 {
                    stack
                } else {
                    stack.drop_last()
                },
                path,
            );
        } else if e.0 == 3 {
            match unescape_of(e.1) {
                Some(t) => {
                    lemma_extract_flatten_at(evs, i + 1, stack, path);
                    if stack == path {
                        let rest = spec_fragments_at(evs, i + 1, stack, path);
                        assert((seq![t] + rest).drop_first() =~= rest);
                        assert((seq![t] + rest).first() == t);
                    }
                },
                None => {},
            }
        } else if e.0 == 5 {
            lemma_extract_flatten_at(evs, i + 1, stack, path);
        }
    }
}

/// Law: the text accumulated under a tag path equals the ordered
/// concatenation of every text fragment encountered under exactly that
/// path, in document order; text under any other path never contributes.
pub proof fn lemma_extract_is_ordered_concat(evs: Seq<(int, Seq<char>)>, path: Seq<Seq<char>>)
    ensures
        spec_extract(evs, path) == spec_fragments(evs, path).flatten(),
{
    lemma_extract_flatten_at(evs, 0, Seq::empty(), path);
}

// ---------------------------------------------------------------------------
// The trusted scanner.
// ---------------------------------------------------------------------------

/// `quick_xml`'s pull reader, carried opaquely.
#[verifier::external_type_specification]
#[verifier::external_body]
#[verifier::reject_recursive_types(R)]
pub struct ExXmlReader<R>(quick_xml::reader::Reader<R>);

/// A pull scanner over one markup document.  Besides the reader it keeps
/// the document being scanned and a count of the events already produced,
/// so the stream position can be related to `markup_events`.
pub(crate) struct MarkupScanner<'a> {
    reader: quick_xml::reader::Reader<&'a [u8]>,
    buf: Vec<u8>,
    doc: &'a str,
    produced: usize,
}

impl<'a> MarkupScanner<'a> {
    pub closed spec fn doc(self) -> Seq<char> {
        self.doc@
    }

    pub closed spec fn pos(self) -> int {
        self.produced as int
    }

    /// Relies on `quick_xml::reader::Reader::from_str`, with `trim_text`
    /// set on its `Config`: scanning any document yields at least one
    /// event, the last of them terminal.
    #[verifier::external_body]
    pub(crate) fn new(doc: &'a str) -> (s: Self)
        ensures
            s.doc() == doc@,
            s.pos() == 0,
            s.pos() < markup_events(s.doc()).len(),
    {
        let mut reader = quick_xml::reader::Reader::from_str(doc);
        reader.config_mut().trim_text(true);
        MarkupScanner { reader, buf: Vec::new(), doc, produced: 0 }
    }

    /// Relies on `quick_xml::reader::Reader::read_event_into`: the events
    /// of a document are a function of its text alone (`markup_events`),
    /// every event before the last is non-terminal, and the last is
    /// terminal (end-of-document, or an error on a malformed fragment).
    #[verifier::external_body]
    pub(crate) fn next_event(&mut self) -> (e: MarkupEvent)
        requires
            0 <= old(self).pos() < markup_events(old(self).doc()).len(),
        ensures
            final(self).doc() == old(self).doc(),
            final(self).pos() == old(self).pos() + 1,
            e@ == markup_events(old(self).doc())[old(self).pos()],
            old(self).pos() < markup_events(old(self).doc()).len() - 1 ==> !(e is Eof || e is Error),
            old(self).pos() == markup_events(old(self).doc()).len() - 1 ==> (e is Eof || e is Error),
    {
        self.produced += 1;
        self.buf.clear();
        match self.reader.read_event_into(&mut self.buf) {
            Ok(quick_xml::events::Event::Start(t)) => MarkupEvent::Open {
                name: t.name().as_ref().to_string(),
            },
            Ok(quick_xml::events::Event::End(_)) => MarkupEvent::Close,
            Ok(quick_xml::events::Event::Text(t)) => MarkupEvent::Text {
                raw: t.as_ref().to_string(),
            },
            Ok(quick_xml::events::Event::Eof) => MarkupEvent::Eof,
            Ok(_) => MarkupEvent::Other,
            Err(_) => MarkupEvent::Error,
        }
    }
}

/// Relies on `quick_xml::escape::unescape`: resolving references in a text
/// run is a function of the run alone (`unescape_of`), failing exactly on
/// malformed or unknown references.
#[verifier::external_body]
fn unescape_text(raw: &str) -> (r: Option<String>)
    ensures
        r is Some <==> unescape_of(raw@) is Some,
        r matches Some(t) ==> unescape_of(raw@) == Some(t@),
{
    match quick_xml::escape::unescape(raw) {
        Ok(t) => Some(t.into_owned()),
        Err(_) => None,
    }
}

// ---------------------------------------------------------------------------
// The verified extraction loop.
// ---------------------------------------------------------------------------

/// Whether the open-tag stack currently equals the three-element path
/// `[a, b, c]`.
fn stack_is(stack: &Vec<String>, a: &str, b: &str, c: &str) -> (r: bool)
    ensures
        r == (stack.deep_view() == seq![a@, b@, c@]),
{
    let target_len: usize = 3;
    if stack.len() != target_len {
        proof {
            assert(stack.deep_view().len() == stack@.len());
        }
        return false;
    }
    let sa = String::from_str(a);
    let sb = String::from_str(b);
    let sc = String::from_str(c);
    let r = stack[0].eq(&sa) && stack[1].eq(&sb) && stack[2].eq(&sc);
    proof {
        assert(stack.deep_view()[0] == stack@[0]@);
        assert(stack.deep_view()[1] == stack@[1]@);
        assert(stack.deep_view()[2] == stack@[2]@);
        if r {
            assert(stack.deep_view() =~= seq![a@, b@, c@]);
        }
    }
    r
}

/// Streams `doc` and recovers the error-message, call-stack and
/// user-description text: each returned string is exactly the text
/// accumulated under its tag path, fragments concatenated in document
/// order, up to the first malformed fragment if any.
pub fn extract_crash_text(doc: &str) -> (r: (String, String, String))
    ensures
        r.0@ == spec_extract(markup_events(doc@), spec_error_path()),
        r.1@ == spec_extract(markup_events(doc@), spec_callstack_path()),
        r.2@ == spec_extract(markup_events(doc@), spec_user_description_path()),
{
    let ghost evs = markup_events(doc@);
    let mut scanner = MarkupScanner::new(doc);
    let mut stack: Vec<String> = Vec::new();
    let mut error_acc = String::new();
    let mut callstack_acc = String::new();
    let mut user_acc = String::new();
    let mut halted: bool = false;
    proof {
        assert(stack.deep_view() =~= Seq::<Seq<char>>::empty());
        assert(error_acc@ + spec_extract(evs, spec_error_path()) =~= spec_extract(
            evs,
            spec_error_path(),
        ));
        assert(callstack_acc@ + spec_extract(evs, spec_callstack_path()) =~= spec_extract(
            evs,
            spec_callstack_path(),
        ));
        assert(user_acc@ + spec_extract(evs, spec_user_description_path()) =~= spec_extract(
            evs,
            spec_user_description_path(),
        ));
    }
    while !halted
        invariant
            scanner.doc() == doc@,
            evs == markup_events(doc@),
            0 <= scanner.pos() <= evs.len(),
            !halted ==> scanner.pos() < evs.len(),
            !halted ==> error_acc@ + spec_extract_at(
                evs,
                scanner.pos(),
                stack.deep_view(),
                spec_error_path(),
            ) == spec_extract(evs, spec_error_path()),
            !halted ==> callstack_acc@ + spec_extract_at(
                evs,
                scanner.pos(),
                stack.deep_view(),
                spec_callstack_path(),
            ) == spec_extract(evs, spec_callstack_path()),
            !halted ==> user_acc@ + spec_extract_at(
                evs,
                scanner.pos(),
                stack.deep_view(),
                spec_user_description_path(),
            ) == spec_extract(evs, spec_user_description_path()),
            halted ==> error_acc@ == spec_extract(evs, spec_error_path()),
            halted ==> callstack_acc@ == spec_extract(evs, spec_callstack_path()),
            halted ==> user_acc@ == spec_extract(evs, spec_user_description_path()),
        decreases evs.len() - scanner.pos(),
    {
        let ghost p = scanner.pos();
        let ghost sv = stack.deep_view();
        let ev = scanner.next_event();
        let ghost evv = ev@;
        match ev {
            MarkupEvent::Open { name } => {
                let ghost namev = name@;
                stack.push(name);
                proof {
                    assert(stack.deep_view() =~= sv.push(namev));
                }
            },
            MarkupEvent::Close => {
                if stack.len() > 0 {
                    stack.pop();
                    proof {
                        assert(stack.deep_view() =~= sv.drop_last());
                    }
                }
            },
            MarkupEvent::Text { raw } => {
                match unescape_text(raw.as_str()) {
                    Some(t) => {
                        if stack_is(&stack, "FGenericCrashContext", "RuntimeProperties",
                            "ErrorMessage") {
                            error_acc.append(t.as_str());
                        }
                        if stack_is(&stack, "FGenericCrashContext", "RuntimeProperties",
                            "CallStack") {
                            callstack_acc.append(t.as_str());
                        }
                        if stack_is(&stack, "FGenericCrashContext", "RuntimeProperties",
                            "UserDescription") {
                            user_acc.append(t.as_str());
                        }
                    },
                    None => {
                        halted = true;
                    },
                }
            },
            MarkupEvent::Other => {
            },
            MarkupEvent::Eof => {
                halted = true;
            },
            MarkupEvent::Error => {
                halted = true;
            },
        }
    }
    (error_acc, callstack_acc, user_acc)
}

} // verus!
