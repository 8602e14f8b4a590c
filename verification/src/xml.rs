//! The XML event model and a plain-text XML writer.
//!
//! The structural parser and serializer speak in events: a start or empty
//! element with its attributes, an end element, text, or the end of input.
//! The writer below builds an XML document directly as text, escaping
//! content where asked, and checks element nesting with a name stack.

use vstd::prelude::*;

use crate::digits::push_char;

verus! {

/// The mathematical content of an event.
pub ghost enum XmlEventModel {
    /// A start element with its attributes.
    Start(Seq<char>, Seq<(Seq<char>, Seq<char>)>),
    /// An empty element with its attributes.
    Empty(Seq<char>, Seq<(Seq<char>, Seq<char>)>),
    /// An end element.
    End(Seq<char>),
    /// Character data, unescaped.
    Text(Seq<char>),
    /// The end of the document.
    Eof,
    /// Anything the content model ignores.
    Other,
}

/// One event of an XML stream.
#[derive(Debug)]
pub enum XmlEvent {
    /// A start element with its attributes.
    Start(String, Vec<(String, String)>),
    /// An empty element with its attributes.
    Empty(String, Vec<(String, String)>),
    /// An end element.
    End(String),
    /// Character data, unescaped.
    Text(String),
    /// The end of the document.
    Eof,
    /// Anything the content model ignores.
    Other,
}

/// The view of an attribute list.
pub open spec fn attrs_view(a: Seq<(String, String)>) -> Seq<(Seq<char>, Seq<char>)> {
    a.map_values(|p: (String, String)| (p.0@, p.1@))
}

impl View for XmlEvent {
    type V = XmlEventModel;

    open spec fn view(&self) -> XmlEventModel {
        match self {
            XmlEvent::Start(n, a) => XmlEventModel::Start(n@, attrs_view(a@)),
            XmlEvent::Empty(n, a) => XmlEventModel::Empty(n@, attrs_view(a@)),
            XmlEvent::End(n) => XmlEventModel::End(n@),
            XmlEvent::Text(t) => XmlEventModel::Text(t@),
            XmlEvent::Eof => XmlEventModel::Eof,
            XmlEvent::Other => XmlEventModel::Other,
        }
    }
}

/// What the writer has open at its write position.
#[derive(Debug, Clone, Copy, PartialEq, Eq, Structural)]
pub enum Open {
    /// Nothing pending.
    Closed,
    /// A start tag whose `>` is pending.
    Elem,
    /// An empty tag whose `/>` is pending.
    Empty,
}

/// The writer's stack of open element names.
#[derive(Debug)]
pub struct Stack {
    /// The open names, outermost first.
    pub stack: Vec<String>,
}

impl Stack {
    /// The names as character sequences.
    pub open spec fn names(&self) -> Seq<Seq<char>> {
        self.stack@.map_values(|s: String| s@)
    }

    /// An empty stack.
    pub fn new() -> (r: Stack)
        ensures
            r.names().len() == 0,
    {
        Stack { stack: Vec::new() }
    }

    /// How many elements are open.
    pub fn len(&self) -> (r: usize)
        ensures
            r == self.names().len(),
    {
        self.stack.len()
    }

    /// Opens one more element.
    pub fn push(&mut self, name: String)
        ensures
            final(self).names() == old(self).names().push(name@),
    {
        self.stack.push(name);
        proof {
            assert(self.names() =~= old(self).names().push(self.stack@.last()@));
        }
    }

    /// Closes the innermost element.
    pub fn pop(&mut self) -> (r: Option<String>)
        ensures
            old(self).names().len() == 0 ==> r is None && final(self).names() == old(self).names(),
            old(self).names().len() > 0 ==> (r matches Some(n) && n@ == old(self).names().last()
                && final(self).names() == old(self).names().drop_last()),
    {
        let r = self.stack.pop();
        proof {
            if old(self).names().len() > 0 {
                assert(self.names() =~= old(self).names().drop_last());
            } else {
                assert(self.names() =~= old(self).names());
            }
        }
        r
    }

    /// Whether nothing is open.
    pub fn is_empty(&self) -> (r: bool)
        ensures
            r == (self.names().len() == 0),
    {
        self.stack.len() == 0
    }
}

/// The text a pending tag end contributes.
pub open spec fn close_mark(open: Open) -> Seq<char> {
    match open {
        Open::Closed => Seq::empty(),
        Open::Elem => ">"@,
        Open::Empty => "/>"@,
    }
}

/// What one escaped character writes: the five markup characters become
/// entity references, and a backslash doubles inside identifiers.
pub open spec fn esc_char(c: char, ident: bool) -> Seq<char> {
    if c == '"' {
        "&quot;"@
    } else if c == '\'' {
        "&apos;"@
    } else if c == '&' {
        "&amp;"@
    } else if c == '<' {
        "&lt;"@
    } else if c == '>' {
        "&gt;"@
    } else if c == '\\' && ident {
        "\\\\"@
    } else {
        seq![c]
    }
}

/// The escaped form of a whole string.
pub open spec fn esc_chars(s: Seq<char>, ident: bool) -> Seq<char>
    decreases s.len(),
{
    if s.len() == 0 {
        Seq::empty()
    } else {
        esc_chars(s.drop_last(), ident) + esc_char(s.last(), ident)
    }
}

/// A plain-text XML writer with nesting checks.
///
/// Output accumulates in an internal buffer; [`XmlWriter::take`] hands the
/// document out when writing is done.
#[derive(Debug)]
pub struct XmlWriter {
    /// The document written so far.
    pub buf: String,
    /// The open elements.
    pub stack: Stack,
    /// The pending tag end.
    pub open: Open,
    /// Whether opening elements are indented onto fresh lines.
    pub indent: bool,
}

/// A run of `n` spaces.
pub open spec fn spaces(n: nat) -> Seq<char>
    decreases n,
{
    if n == 0 {
        Seq::empty()
    } else {
        spaces((n - 1) as nat) + seq![' ']
    }
}

/// A run of spaces is all spaces, as long as asked.
proof fn lemma_spaces(n: nat)
    ensures
        spaces(n).len() == n,
        forall|j: int| 0 <= j < n ==> spaces(n)[j] == ' ',
    decreases n,
{
    if n > 0 {
        lemma_spaces((n - 1) as nat);
    }
}

/// The indent an opening element gets: a fresh line and two spaces per open
/// level, only when indenting is on and something is open.
pub open spec fn indent_chars(w: XmlWriter) -> Seq<char> {
    if w.indent && w.stack.names().len() > 0 {
        seq!['\n'] + spaces(2 * w.stack.names().len())
    } else {
        Seq::empty()
    }
}

impl XmlWriter {
    /// A writer with an empty document.
    ///
    /// Indentation starts off: a fresh writer produces the compact
    /// single-line form.  Callers that want readable output set `indent`
    /// themselves; unlike a build-time switch, the field really governs
    /// [`XmlWriter::put_indent`], so the default is the off position rather
    /// than a stored-but-inert flag.
    pub fn new() -> (r: XmlWriter)
        ensures
            r.buf@ == Seq::<char>::empty(),
            r.stack.names().len() == 0,
            r.open == Open::Closed,
            r.indent == false,
    {
        XmlWriter { buf: String::new(), stack: Stack::new(), open: Open::Closed, indent: false }
    }

    /// Hands the document out.
    pub fn take(self) -> (r: String)
        ensures
            r@ == self.buf@,
    {
        self.buf
    }

    /// Writes the XML declaration with the given encoding.
    pub fn dtd(&mut self, encoding: &str)
        ensures
            final(self).buf@ == old(self).buf@ + "<?xml version=\"1.0\" encoding=\""@ + encoding@
                + "\" ?>\n"@,
            final(self).stack.names() == old(self).stack.names(),
            final(self).open == old(self).open,
            final(self).indent == old(self).indent,
    {
        self.buf.append("<?xml version=\"1.0\" encoding=\"");
        self.buf.append(encoding);
        self.buf.append("\" ?>\n");
    }

    /// Ends a pending tag, if one is open.
    fn close_elem(&mut self)
        ensures
            final(self).buf@ == old(self).buf@ + close_mark(old(self).open),
            final(self).open == Open::Closed,
            final(self).stack.names() == old(self).stack.names(),
            final(self).indent == old(self).indent,
    {
        match self.open {
            Open::Closed => {
                proof {
                    assert(self.buf@ =~= self.buf@ + close_mark(Open::Closed));
                }
            },
            Open::Elem => {
                self.buf.append(">");
            },
            Open::Empty => {
                self.buf.append("/>");
            },
        }
        self.open = Open::Closed;
    }

    /// Writes the configured indent before an opening element.
    fn put_indent(&mut self)
        ensures
            final(self).buf@ == old(self).buf@ + indent_chars(*old(self)),
            final(self).open == old(self).open,
            final(self).stack.names() == old(self).stack.names(),
            final(self).indent == old(self).indent,
    {
        if self.indent && !self.stack.is_empty() {
            push_char(&mut self.buf, '\n');
            let n = self.stack.len();
            let mut i: usize = 0;
            let ghost base = self.buf@;
            while i < n
                invariant
                    self.buf@ == base + spaces(2 * i as nat),
                    i <= n,
                    self.open == old(self).open,
                    self.stack.names() == old(self).stack.names(),
                    self.indent == old(self).indent,
                decreases n - i,
            {
                push_char(&mut self.buf, ' ');
                push_char(&mut self.buf, ' ');
                proof {
                    lemma_spaces(2 * i as nat);
                    lemma_spaces(2 * (i + 1) as nat);
                    assert(self.buf@ =~= base + spaces(2 * (i + 1) as nat));
                }
                i += 1;
            }
        } else {
            proof {
                assert(self.buf@ =~= self.buf@ + indent_chars(*self));
            }
        }
    }

    /// Escapes `text` into the buffer; `ident` doubles backslashes too.
    fn escape(&mut self, text: &str, ident: bool)
        ensures
            final(self).buf@ == old(self).buf@ + esc_chars(text@, ident),
            final(self).open == old(self).open,
            final(self).stack.names() == old(self).stack.names(),
            final(self).indent == old(self).indent,
    {
        let len = text.unicode_len();
        let mut i: usize = 0;
        while i < len
            invariant
                len == text@.len(),
                i <= len,
                self.buf@ == old(self).buf@ + esc_chars(text@.take(i as int), ident),
                self.open == old(self).open,
                self.stack.names() == old(self).stack.names(),
                self.indent == old(self).indent,
            decreases len - i,
        {
            let c = text.get_char(i);
            proof {
                assert(text@.take((i + 1) as int).drop_last() =~= text@.take(i as int));
                assert(text@.take((i + 1) as int).last() == text@[i as int]);
            }
            if c == '"' {
                self.buf.append("&quot;");
            } else if c == '\'' {
                self.buf.append("&apos;");
            } else if c == '&' {
                self.buf.append("&amp;");
            } else if c == '<' {
                self.buf.append("&lt;");
            } else if c == '>' {
                self.buf.append("&gt;");
            } else if c == '\\' && ident {
                self.buf.append("\\\\");
            } else {
                push_char(&mut self.buf, c);
                proof {
                    assert(esc_char(c, ident) =~= seq![c]);
                }
            }
            i += 1;
        }
        proof {
            assert(text@.take(len as int) =~= text@);
        }
    }

    /// Writes an element holding raw text.
    pub fn elem_text(&mut self, name: &str, text: &str)
        ensures
            final(self).buf@ == old(self).buf@ + close_mark(old(self).open) + indent_chars(
                XmlWriter { open: Open::Closed, ..*old(self) },
            ) + "<"@ + name@ + ">"@ + text@ + "</"@ + name@ + ">"@,
            final(self).open == Open::Closed,
            final(self).stack.names() == old(self).stack.names(),
            final(self).indent == old(self).indent,
    {
        self.close_elem();
        self.put_indent();
        self.buf.append("<");
        self.buf.append(name);
        self.buf.append(">");
        self.buf.append(text);
        self.buf.append("</");
        self.buf.append(name);
        self.buf.append(">");
    }

    /// Writes an element holding escaped text.
    pub fn elem_text_esc(&mut self, name: &str, text: &str)
        ensures
            final(self).buf@ == old(self).buf@ + close_mark(old(self).open) + indent_chars(
                XmlWriter { open: Open::Closed, ..*old(self) },
            ) + "<"@ + name@ + ">"@ + esc_chars(text@, false) + "</"@ + name@ + ">"@,
            final(self).open == Open::Closed,
            final(self).stack.names() == old(self).stack.names(),
            final(self).indent == old(self).indent,
    {
        self.close_elem();
        self.put_indent();
        self.buf.append("<");
        self.buf.append(name);
        self.buf.append(">");
        self.escape(text, false);
        self.buf.append("</");
        self.buf.append(name);
        self.buf.append(">");
    }

    /// Opens an element; attributes may follow before the next content.
    pub fn elem(&mut self, name: String)
        ensures
            final(self).buf@ == old(self).buf@ + close_mark(old(self).open) + indent_chars(
                XmlWriter { open: Open::Closed, ..*old(self) },
            ) + "<"@ + name@,
            final(self).open == Open::Elem,
            final(self).stack.names() == old(self).stack.names().push(name@),
            final(self).indent == old(self).indent,
    {
        self.close_elem();
        self.put_indent();
        self.buf.append("<");
        self.buf.append(name.as_str());
        self.stack.push(name);
        self.open = Open::Elem;
    }

    /// Opens an empty element; attributes may follow before it closes.
    pub fn empty(&mut self, name: &str)
        ensures
            final(self).buf@ == old(self).buf@ + close_mark(old(self).open) + indent_chars(
                XmlWriter { open: Open::Closed, ..*old(self) },
            ) + "<"@ + name@,
            final(self).open == Open::Empty,
            final(self).stack.names() == old(self).stack.names(),
            final(self).indent == old(self).indent,
    {
        self.close_elem();
        self.put_indent();
        self.buf.append("<");
        self.buf.append(name);
        self.open = Open::Empty;
    }

    /// Writes a raw attribute onto the open tag.
    pub fn attr(&mut self, name: &str, value: &str)
        requires
            old(self).open != Open::Closed,
        ensures
            final(self).buf@ == old(self).buf@ + " "@ + name@ + "=\""@ + value@ + "\""@,
            final(self).open == old(self).open,
            final(self).stack.names() == old(self).stack.names(),
            final(self).indent == old(self).indent,
    {
        self.buf.append(" ");
        self.buf.append(name);
        self.buf.append("=\"");
        self.buf.append(value);
        self.buf.append("\"");
    }

    /// Writes an escaped attribute onto the open tag.
    pub fn attr_esc(&mut self, name: &str, value: &str)
        requires
            old(self).open != Open::Closed,
        ensures
            final(self).buf@ == old(self).buf@ + " "@ + esc_chars(name@, true) + "=\""@
                + esc_chars(value@, false) + "\""@,
            final(self).open == old(self).open,
            final(self).stack.names() == old(self).stack.names(),
            final(self).indent == old(self).indent,
    {
        self.buf.append(" ");
        self.escape(name, true);
        self.buf.append("=\"");
        self.escape(value, false);
        self.buf.append("\"");
    }

    /// Writes raw text content.
    pub fn text(&mut self, text: &str)
        ensures
            final(self).buf@ == old(self).buf@ + close_mark(old(self).open) + text@,
            final(self).open == Open::Closed,
            final(self).stack.names() == old(self).stack.names(),
            final(self).indent == old(self).indent,
    {
        self.close_elem();
        self.buf.append(text);
    }

    /// Writes escaped text content.
    pub fn text_esc(&mut self, text: &str)
        ensures
            final(self).buf@ == old(self).buf@ + close_mark(old(self).open) + esc_chars(
                text@,
                false,
            ),
            final(self).open == Open::Closed,
            final(self).stack.names() == old(self).stack.names(),
            final(self).indent == old(self).indent,
    {
        self.close_elem();
        self.escape(text, false);
    }

    /// Ends the innermost element; the name must match the open one.
    pub fn end_elem(&mut self, name: &str) -> (r: bool)
        ensures
            final(self).buf@ == old(self).buf@ + close_mark(old(self).open) + "</"@ + name@
                + ">"@,
            final(self).open == Open::Closed,
            final(self).indent == old(self).indent,
            r == (old(self).stack.names().len() > 0 && old(self).stack.names().last() == name@),
            old(self).stack.names().len() > 0 ==> final(self).stack.names() == old(
                self,
            ).stack.names().drop_last(),
            old(self).stack.names().len() == 0 ==> final(self).stack.names() == old(
                self,
            ).stack.names(),
    {
        self.close_elem();
        let matched = match self.stack.pop() {
            Some(top) => crate::digits::str_eq(top.as_str(), name),
            None => false,
        };
        self.buf.append("</");
        self.buf.append(name);
        self.buf.append(">");
        matched
    }

    /// Whether every element was closed again.
    pub fn close(&self) -> (r: bool)
        ensures
            r == (self.stack.names().len() == 0),
    {
        self.stack.is_empty()
    }
}

} // verus!
