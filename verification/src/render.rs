//! Rendering an entry as one Markdown-flavored list item.

use vstd::prelude::*;
use vstd::string::StrSliceExecFns;
use vstd::string::StringExecFns;

use crate::entry::Entry;
use crate::entry::EntryV;
use crate::lines::line_split;
use crate::lines::split_lines;

verus! {

/// The head line of an entry: a list bullet, the name (a hyperlink when a
/// link is present), the description after a comma when one is present,
/// and a line terminator.
pub open spec fn head_text(e: EntryV) -> Seq<char> {
    "- "@ + (match e.link {
        Some(l) => "["@ + e.name + "]("@ + l + ")"@,
        None => e.name,
    }) + (match e.description {
        Some(d) => ", "@ + d + "\n"@,
        None => "\n"@,
    })
}

/// The quoted lines in order, each preceded by a blockquote marker and
/// followed by a line terminator.
pub open spec fn quote_lines_text(ls: Seq<Seq<char>>) -> Seq<char>
    decreases ls.len(),
{
    if ls.len() == 0 {
        Seq::empty()
    } else {
        quote_lines_text(ls.drop_last()) + " > "@ + ls.last() + "\n"@
    }
}

/// The rendering of the quote: nothing when it is absent, its lines
/// otherwise; an empty quote has no lines and renders as nothing.
pub open spec fn quote_text(q: Option<Seq<char>>) -> Seq<char> {
    match q {
        None => Seq::empty(),
        Some(s) => quote_lines_text(line_split(s)),
    }
}

/// One collaborator as a Markdown reference link.
pub open spec fn cc_item_text(p: Seq<char>) -> Seq<char> {
    "[@"@ + p + "]["@ + p + "]"@
}

/// The collaborators in order, joined by commas.
pub open spec fn cc_items_text(cc: Seq<Seq<char>>) -> Seq<char>
    decreases cc.len(),
{
    if cc.len() == 0 {
        Seq::empty()
    } else if cc.len() == 1 {
        cc_item_text(cc[0])
    } else {
        cc_items_text(cc.drop_last()) + ", "@ + cc_item_text(cc.last())
    }
}

/// The collaborator line, terminated; omitted entirely when there are no
/// collaborators.
pub open spec fn cc_text(cc: Seq<Seq<char>>) -> Seq<char> {
    if cc.len() == 0 {
        Seq::empty()
    } else {
        cc_items_text(cc) + "\n"@
    }
}

/// The full rendering of one entry.
pub open spec fn render_entry(e: EntryV) -> Seq<char> {
    head_text(e) + quote_text(e.quote) + cc_text(e.cc)
}

impl Entry {
    /// Render this entry as one Markdown list item.
    pub fn render(&self) -> (out: String)
        ensures
            out@ == render_entry(self@),
    {
        let mut out = String::new();
        out.append("- ");
        match &self.link {
            Some(l) => {
                out.append("[");
                out.append(self.name.as_str());
                out.append("](");
                out.append(l.as_str());
                out.append(")");
            },
            None => {
                out.append(self.name.as_str());
            },
        }
        match &self.description {
            Some(d) => {
                out.append(", ");
                out.append(d.as_str());
                out.append("\n");
            },
            None => {
                out.append("\n");
            },
        }
        proof {
            assert(out@ =~= head_text(self@));
        }
        let ghost head = out@;
        match &self.quote {
            Some(q) => {
                let qlines = split_lines(q.as_str());
                let ghost ls = line_split(q@);
                let n = qlines.len();
                let mut j: usize = 0;
                while j < n
                    invariant
                        j <= n,
                        n == qlines.len(),
                        qlines.deep_view() == ls,
                        out@ == head + quote_lines_text(ls.take(j as int)),
                    decreases n - j,
                {
                    out.append(" > ");
                    out.append(qlines[j].as_str());
                    out.append("\n");
                    proof {
                        assert(ls.take(j as int + 1).drop_last() =~= ls.take(j as int));
                        assert(ls.take(j as int + 1).last() == ls[j as int]);
                        assert(qlines.deep_view()[j as int] == qlines@[j as int]@);
                        assert(out@ =~= head + quote_lines_text(ls.take(j as int + 1)));
                    }
                    j += 1;
                }
                proof {
                    assert(ls.take(n as int) =~= ls);
                    assert(out@ == head + quote_text(self@.quote));
                }
            },
            None => {
                proof {
                    assert(out@ =~= head + quote_text(self@.quote));
                }
            },
        }
        let ghost front = out@;
        let n = self.cc.len();
        if n > 0 {
            let ghost cc = self@.cc;
            let mut j: usize = 0;
            proof {
                assert(out@ =~= front + cc_items_text(cc.take(0)));
            }
            while j < n
                invariant
                    j <= n,
                    n == self.cc.len(),
                    cc == self@.cc,
                    out@ == front + cc_items_text(cc.take(j as int)),
                decreases n - j,
            {
                if j > 0 {
                    out.append(", ");
                }
                out.append("[@");
                out.append(self.cc[j].as_str());
                out.append("][");
                out.append(self.cc[j].as_str());
                out.append("]");
                proof {
                    assert(cc.take(j as int + 1).drop_last() =~= cc.take(j as int));
                    assert(cc.take(j as int + 1).last() == cc[j as int]);
                    assert(self@.cc[j as int] == self.cc@[j as int]@);
                    assert(out@ =~= front + cc_items_text(cc.take(j as int + 1)));
                }
                j += 1;
            }
            out.append("\n");
            proof {
                assert(cc.take(n as int) =~= cc);
                assert(out@ =~= front + cc_text(self@.cc));
            }
        }
        proof {
            assert(out@ =~= render_entry(self@));
        }
        out
    }
}

} // verus!
