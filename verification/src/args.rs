//! Structured tool-call arguments.
//!
//! A tool call carries a flat object of named string fields. Holding the
//! fields as plain values keeps every read of an argument inside the
//! verified logic; the transport layer converts its wire encoding into
//! this form at the boundary.

use vstd::prelude::*;
use vstd::string::StringExecFns;

verus! {

/// The rendering of one argument field: `"key": "value"`.
pub open spec fn render_pair(p: (String, String)) -> Seq<char> {
    "\""@ + p.0@ + "\": \""@ + p.1@ + "\""@
}

/// The rendering of the fields, comma-separated.
pub open spec fn render_fields(entries: Seq<(String, String)>) -> Seq<char>
    decreases entries.len(),
{
    if entries.len() == 0 {
        Seq::empty()
    } else if entries.len() == 1 {
        render_pair(entries[0])
    } else {
        render_pair(entries[0]) + ", "@ + render_fields(entries.drop_first())
    }
}

/// The rendering of a whole argument object: `{"k": "v", ...}`.
pub open spec fn render_args(entries: Seq<(String, String)>) -> Seq<char> {
    "{"@ + render_fields(entries) + "}"@
}

proof fn lemma_render_fields_push(entries: Seq<(String, String)>, p: (String, String))
    ensures
        render_fields(entries.push(p)) == if entries.len() == 0 {
            render_pair(p)
        } else {
            render_fields(entries) + ", "@ + render_pair(p)
        },
    decreases entries.len(),
{
    if entries.len() == 0 {
        assert(entries.push(p)[0] == p);
    } else {
        assert(entries.push(p)[0] == entries[0]);
        assert(entries.push(p).drop_first() =~= entries.drop_first().push(p));
        assert(render_fields(seq![p]) == render_pair(p));
        lemma_render_fields_push(entries.drop_first(), p);
        if entries.len() == 1 {
            assert(render_fields(entries.push(p)) =~= render_fields(entries) + ", "@
                + render_pair(p));
        } else {
            assert(render_fields(entries.push(p)) =~= render_fields(entries) + ", "@
                + render_pair(p));
        }
    }
}

/// The arguments of one tool call: named string fields, in order.
#[derive(Debug, PartialEq, Eq)]
pub struct ToolArguments {
    pub entries: Vec<(String, String)>,
}

impl DeepView for ToolArguments {
    type V = Seq<(Seq<char>, Seq<char>)>;

    open spec fn deep_view(&self) -> Seq<(Seq<char>, Seq<char>)> {
        self.entries.deep_view()
    }
}

impl Clone for ToolArguments {
    /// Cloning keeps every field, in order.
    fn clone(&self) -> (res: Self)
        ensures
            res.entries@ == self.entries@,
    {
        let n = self.entries.len();
        let mut entries: Vec<(String, String)> = Vec::new();
        let mut i: usize = 0;
        while i < n
            invariant
                i <= n,
                n == self.entries@.len(),
                entries@ == self.entries@.subrange(0, i as int),
            decreases n - i,
        {
            entries.push((self.entries[i].0.clone(), self.entries[i].1.clone()));
            proof {
                assert(entries@ =~= self.entries@.subrange(0, i as int + 1));
            }
            i = i + 1;
        }
        proof {
            assert(entries@ =~= self.entries@);
        }
        ToolArguments { entries }
    }
}

/// The value of the first field named `key`, if any.
pub open spec fn spec_lookup(entries: Seq<(String, String)>, key: Seq<char>) -> Option<String>
    decreases entries.len(),
{
    if entries.len() == 0 {
        None
    } else if entries[0].0@ == key {
        Some(entries[0].1)
    } else {
        spec_lookup(entries.drop_first(), key)
    }
}

impl ToolArguments {
    /// An argument object with no fields.
    pub fn new() -> (r: ToolArguments)
        ensures
            r.entries@.len() == 0,
    {
        ToolArguments { entries: Vec::new() }
    }

    /// An argument object holding exactly `entries`.
    pub fn from_entries(entries: Vec<(String, String)>) -> (r: ToolArguments)
        ensures
            r.entries == entries,
    {
        ToolArguments { entries }
    }

    /// Add one field at the end.
    pub fn push(&mut self, key: String, value: String)
        ensures
            final(self).entries@ == old(self).entries@.push((key, value)),
    {
        self.entries.push((key, value));
    }

    /// Render the arguments as one line: `{"k": "v", ...}`.
    pub fn render(&self) -> (r: String)
        ensures
            r@ == render_args(self.entries@),
    {
        let n = self.entries.len();
        let mut out = String::new();
        out.append("{");
        let mut i: usize = 0;
        proof {
            assert(out@ =~= "{"@ + render_fields(self.entries@.subrange(0, 0)));
        }
        while i < n
            invariant
                i <= n,
                n == self.entries@.len(),
                out@ == "{"@ + render_fields(self.entries@.subrange(0, i as int)),
            decreases n - i,
        {
            proof {
                assert(self.entries@.subrange(0, i as int + 1) =~= self.entries@.subrange(
                    0,
                    i as int,
                ).push(self.entries@[i as int]));
                lemma_render_fields_push(
                    self.entries@.subrange(0, i as int),
                    self.entries@[i as int],
                );
            }
            if i > 0 {
                out.append(", ");
            }
            out.append("\"");
            out.append(self.entries[i].0.as_str());
            out.append("\": \"");
            out.append(self.entries[i].1.as_str());
            out.append("\"");
            proof {
                assert(out@ =~= "{"@ + render_fields(self.entries@.subrange(0, i as int + 1)));
            }
            i = i + 1;
        }
        out.append("}");
        proof {
            assert(self.entries@.subrange(0, n as int) =~= self.entries@);
            assert(out@ =~= render_args(self.entries@));
        }
        out
    }

    /// Look a field up by name; the first field with that name wins.
    pub fn get(&self, key: &String) -> (r: Option<&String>)
        ensures
            match r {
                Some(v) => spec_lookup(self.entries@, key@) == Some(*v),
                None => spec_lookup(self.entries@, key@) is None,
            },
    {
        let n = self.entries.len();
        let mut i: usize = 0;
        proof {
            assert(self.entries@.skip(0) =~= self.entries@);
        }
        while i < n
            invariant
                i <= n,
                n == self.entries@.len(),
                spec_lookup(self.entries@, key@) == spec_lookup(
                    self.entries@.skip(i as int),
                    key@,
                ),
            decreases n - i,
        {
            proof {
                assert(self.entries@.skip(i as int)[0] == self.entries@[i as int]);
                assert(self.entries@.skip(i as int).drop_first() =~= self.entries@.skip(
                    i as int + 1,
                ));
            }
            if self.entries[i].0 == *key {
                return Some(&self.entries[i].1);
            }
            i = i + 1;
        }
        proof {
            assert(self.entries@.skip(n as int) =~= Seq::<(String, String)>::empty());
        }
        None
    }
}

} // verus!
