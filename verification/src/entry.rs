//! A single weekly-update record: parsing from a raw fragment, and merging
//! of two records that share a name.

use vstd::prelude::*;
use vstd::string::StringExecFns;

use crate::combine;
use crate::extract::extract_cc;
use crate::extract::extract_str_field;
use crate::extract::frag_cc;
use crate::extract::frag_str;

verus! {

/// Classification of an entry; a fragment without a `type` field gets
/// `Draft`.
#[derive(Clone, Copy, PartialEq, Eq, Debug)]
pub enum Kind {
    Draft,
    Topic,
}

/// One weekly-update record, possibly assembled from several fragments
/// that share a name.
#[derive(Clone, PartialEq, Eq, Debug)]
pub struct Entry {
    pub name: String,
    pub kind: Kind,
    pub link: Option<String>,
    pub description: Option<String>,
    pub quote: Option<String>,
    pub cc: Vec<String>,
}

/// The mathematical model of an `Entry`: every field as a sequence of
/// characters.
#[verifier::ext_equal]
pub ghost struct EntryV {
    pub name: Seq<char>,
    pub kind: Kind,
    pub link: Option<Seq<char>>,
    pub description: Option<Seq<char>>,
    pub quote: Option<Seq<char>>,
    pub cc: Seq<Seq<char>>,
}

impl View for Entry {
    type V = EntryV;

    open spec fn view(&self) -> EntryV {
        EntryV {
            name: self.name@,
            kind: self.kind,
            link: self.link.deep_view(),
            description: self.description.deep_view(),
            quote: self.quote.deep_view(),
            cc: self.cc.deep_view(),
        }
    }
}

impl DeepView for Entry {
    type V = EntryV;

    open spec fn deep_view(&self) -> EntryV {
        self.view()
    }
}

/// The kind encoded by a fragment's `type` field: `Draft` when the field is
/// absent, the matching kind on `"draft"` or `"topic"`, and no kind at all
/// on any other string.
pub open spec fn kind_of_field(k: Option<Seq<char>>) -> Option<Kind> {
    match k {
        None => Some(Kind::Draft),
        Some(s) => if s == "draft"@ {
            Some(Kind::Draft)
        } else if s == "topic"@ {
            Some(Kind::Topic)
        } else {
            None
        },
    }
}

/// What parsing a fragment yields: an entry exactly when the text carries a
/// string `name` field and its `type` field encodes a kind; no entry
/// otherwise.
pub open spec fn parse_spec(text: Seq<char>) -> Option<EntryV> {
    match (frag_str(text, "name"@), kind_of_field(frag_str(text, "type"@))) {
        (Some(n), Some(k)) => Some(
            EntryV {
                name: n,
                kind: k,
                link: frag_str(text, "link"@),
                description: frag_str(text, "description"@),
                quote: frag_str(text, "quote"@),
                cc: frag_cc(text),
            },
        ),
        _ => None,
    }
}

/// The model of merging `b` into `a`: the name stays, the kind of `b` wins,
/// the text fields are concatenated without a separator, and the
/// collaborators of `b` follow those of `a` in order, duplicates kept.
pub open spec fn merge_spec(a: EntryV, b: EntryV) -> EntryV {
    EntryV {
        name: a.name,
        kind: b.kind,
        link: combine(a.link, b.link),
        description: combine(a.description, b.description),
        quote: combine(a.quote, b.quote),
        cc: a.cc + b.cc,
    }
}

impl Entry {
    /// Parse one raw fragment. The result is a function of the text alone,
    /// so parsing the same fragment twice yields structurally equal
    /// entries; a fragment without a `name` field, or with a `type` field
    /// that is neither `"draft"` nor `"topic"`, yields no entry.
    pub fn parse(text: &str) -> (r: Option<Entry>)
        ensures
            match r {
                Some(e) => parse_spec(text@) == Some(e@),
                None => parse_spec(text@) is None,
            },
    {
        let name = extract_str_field(text, "name");
        let kind_field = extract_str_field(text, "type");
        let link = extract_str_field(text, "link");
        let description = extract_str_field(text, "description");
        let quote = extract_str_field(text, "quote");
        let cc = extract_cc(text);
        let name = match name {
            Some(n) => n,
            None => {
                return None;
            },
        };
        let kind = match kind_field {
            None => Kind::Draft,
            Some(s) => {
                if s == "draft".to_owned() {
                    Kind::Draft
                } else if s == "topic".to_owned() {
                    Kind::Topic
                } else {
                    return None;
                }
            },
        };
        let e = Entry { name, kind, link, description, quote, cc };
        proof {
            assert(parse_spec(text@) matches Some(ev) && ev =~= e@);
        }
        Some(e)
    }

    /// Append `b` to `a` without a separator, draining `b`: `b` when `a` is
    /// absent, `a` when `b` is absent.
    pub fn field_append(a: &mut Option<String>, b: &mut Option<String>)
        ensures
            (*final(a)).deep_view() == combine((*old(a)).deep_view(), (*old(b)).deep_view()),
            *final(b) is None,
    {
        match b.take() {
            Some(s2) => {
                match a {
                    Some(s1) => {
                        s1.append(s2.as_str());
                    },
                    None => {
                        *a = Some(s2);
                    },
                }
            },
            None => {},
        }
    }

    /// Merge `other` into `self`; only entries with equal names merge.
    pub fn merge(&mut self, other: Entry)
        requires
            old(self)@.name == other@.name,
        ensures
            final(self)@ == merge_spec(old(self)@, other@),
    {
        let mut other = other;
        let ghost o = other@;
        self.kind = other.kind;
        Self::field_append(&mut self.link, &mut other.link);
        Self::field_append(&mut self.description, &mut other.description);
        Self::field_append(&mut self.quote, &mut other.quote);
        self.cc.append(&mut other.cc);
        proof {
            assert(self@ =~= merge_spec(old(self)@, o));
        }
    }
}

} // verus!
