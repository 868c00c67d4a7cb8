//! Flow descriptors: parsing a definition file's text into a `Flow`,
//! rendering one back, and the freshness-checked cache behind the store.
//!
//! A definition file holds exactly three lines, `name=`, `description=` and
//! `version=`, separated by single newlines and without a trailing newline.

use vstd::prelude::*;
use vstd::string::{StrSliceExecFns, StringExecFns};
use crate::text::{spec_starts_with, starts_with};

verus! {

/// An immutable descriptor of a runnable unit, loaded by name from the
/// state directory.
#[derive(Debug, PartialEq)]
pub struct Flow {
    pub name: String,
    pub description: String,
    pub version: String,
}

/// The position of the first newline in `s`, or `s.len()` if there is none.
pub open spec fn find_nl(s: Seq<char>) -> int
    decreases s.len(),
{
    if s.len() == 0 {
        0
    } else if s[0] == '\n' {
        0
    } else {
        1 + find_nl(s.drop_first())
    }
}

/// `s` holds no newline.
pub open spec fn newline_free(s: Seq<char>) -> bool {
    forall|i: int| 0 <= i < s.len() ==> s[i] != '\n'
}

/// `find_nl` is exactly the index with no newline before it and, inside the
/// sequence, a newline at it.
pub proof fn lemma_find_nl_at(s: Seq<char>, i: int)
    requires
        0 <= i <= s.len(),
        forall|j: int| 0 <= j < i ==> s[j] != '\n',
        i < s.len() ==> s[i] == '\n',
    ensures
        find_nl(s) == i,
    decreases s.len(),
{
    if i == 0 {
    } else {
        assert(s[0] != '\n');
        lemma_find_nl_at(s.drop_first(), i - 1);
    }
}

/// The fields that a well-formed definition text denotes, or `None` where
/// the text is malformed. Three newline-separated lines, each under its key.
pub open spec fn spec_parse_fields(text: Seq<char>) -> Option<(Seq<char>, Seq<char>, Seq<char>)> {
    let p1 = find_nl(text);
    if p1 >= text.len() {
        None
    } else {
        let l1 = text.subrange(0, p1);
        let rest = text.subrange(p1 + 1, text.len() as int);
        let p2 = find_nl(rest);
        if p2 >= rest.len() {
            None
        } else {
            let l2 = rest.subrange(0, p2);
            let l3 = rest.subrange(p2 + 1, rest.len() as int);
            if find_nl(l3) < l3.len() {
                None
            } else if !(spec_starts_with(l1, "name="@) && spec_starts_with(l2, "description="@)
                && spec_starts_with(l3, "version="@)) {
                None
            } else {
                Some(
                    (
                        l1.subrange("name="@.len() as int, l1.len() as int),
                        l2.subrange("description="@.len() as int, l2.len() as int),
                        l3.subrange("version="@.len() as int, l3.len() as int),
                    ),
                )
            }
        }
    }
}

/// The definition text that a flow with the given fields renders to.
pub open spec fn spec_flow_text(name: Seq<char>, description: Seq<char>, version: Seq<char>) -> Seq<
    char,
> {
    "name="@ + name + "\n"@ + "description="@ + description + "\n"@ + "version="@ + version
}

/// The position of the first newline, or the length if there is none.
fn find_newline(s: &str) -> (r: usize)
    ensures
        r == find_nl(s@),
        r <= s@.len(),
{
    let n = s.unicode_len();
    let mut i: usize = 0;
    while i < n
        invariant
            i <= n,
            n == s@.len(),
            forall|j: int| 0 <= j < i ==> s@[j] != '\n',
        decreases n - i,
    {
        if s.get_char(i) == '\n' {
            proof {
                lemma_find_nl_at(s@, i as int);
            }
            return i;
        }
        i = i + 1;
    }
    proof {
        lemma_find_nl_at(s@, n as int);
    }
    n
}

impl Flow {
    /// Parses a definition file's text. Returns the flow exactly when the
    /// text is well-formed, and the one parse error otherwise; a malformed
    /// text never yields a partially populated flow.
    pub fn from_file(flow: &str) -> (r: Result<Flow, String>)
        ensures
            match r {
                Ok(f) => spec_parse_fields(flow@) == Some((f.name@, f.description@, f.version@)),
                Err(e) => spec_parse_fields(flow@) is None && e@ == "malformed flow definition"@,
            },
    {
        let n = flow.unicode_len();
        let p1 = find_newline(flow);
        if p1 >= n {
            return Err("malformed flow definition".to_owned());
        }
        let l1 = flow.substring_char(0, p1);
        let rest = flow.substring_char(p1 + 1, n);
        let rn = rest.unicode_len();
        let p2 = find_newline(rest);
        if p2 >= rn {
            return Err("malformed flow definition".to_owned());
        }
        let l2 = rest.substring_char(0, p2);
        let l3 = rest.substring_char(p2 + 1, rn);
        if find_newline(l3) < l3.unicode_len() {
            return Err("malformed flow definition".to_owned());
        }
        if !starts_with(l1, "name=") || !starts_with(l2, "description=")
            || !starts_with(l3, "version=") {
            return Err("malformed flow definition".to_owned());
        }
        let name = l1.substring_char("name=".unicode_len(), l1.unicode_len()).to_owned();
        let description = l2.substring_char("description=".unicode_len(), l2.unicode_len())
            .to_owned();
        let version = l3.substring_char("version=".unicode_len(), l3.unicode_len()).to_owned();
        Ok(Flow { name, description, version })
    }

    /// Renders the definition text that `from_file` reads back.
    pub fn definition_text(&self) -> (r: String)
        ensures
            r@ == spec_flow_text(self.name@, self.description@, self.version@),
    {
        let mut out = "name=".to_owned();
        out.append(self.name.as_str());
        out.append("\n");
        out.append("description=");
        out.append(self.description.as_str());
        out.append("\n");
        out.append("version=");
        out.append(self.version.as_str());
        proof {
            assert(out@ =~= spec_flow_text(self.name@, self.description@, self.version@));
        }
        out
    }

    /// A field-for-field copy.
    pub fn duplicate(&self) -> (r: Flow)
        ensures
            r.name@ == self.name@,
            r.description@ == self.description@,
            r.version@ == self.version@,
    {
        Flow {
            name: self.name.clone(),
            description: self.description.clone(),
            version: self.version.clone(),
        }
    }
}

/// Law: a definition text rendered from newline-free fields parses back to
/// exactly those fields.
pub proof fn lemma_definition_round_trip(name: Seq<char>, description: Seq<char>, version: Seq<char>)
    requires
        newline_free(name),
        newline_free(description),
        newline_free(version),
    ensures
        spec_parse_fields(spec_flow_text(name, description, version)) == Some(
            (name, description, version),
        ),
{
    reveal_strlit("name=");
    reveal_strlit("description=");
    reveal_strlit("version=");
    reveal_strlit("\n");
    let text = spec_flow_text(name, description, version);
    let k1 = "name="@.len() as int;
    let p1 = k1 + name.len() as int;
    assert forall|j: int| 0 <= j < p1 implies text[j] != '\n' by {
        if j < k1 {
            assert(text[j] == "name="@[j]);
        } else {
            assert(text[j] == name[j - k1]);
        }
    }
    assert(text[p1] == '\n');
    lemma_find_nl_at(text, p1);
    let l1 = text.subrange(0, p1);
    let rest = text.subrange(p1 + 1, text.len() as int);
    assert(l1 =~= "name="@ + name);
    assert(rest =~= "description="@ + description + "\n"@ + "version="@ + version);
    let k2 = "description="@.len() as int;
    let p2 = k2 + description.len() as int;
    assert forall|j: int| 0 <= j < p2 implies rest[j] != '\n' by {
        if j < k2 {
            assert(rest[j] == "description="@[j]);
        } else {
            assert(rest[j] == description[j - k2]);
        }
    }
    assert(rest[p2] == '\n');
    lemma_find_nl_at(rest, p2);
    let l2 = rest.subrange(0, p2);
    let l3 = rest.subrange(p2 + 1, rest.len() as int);
    assert(l2 =~= "description="@ + description);
    assert(l3 =~= "version="@ + version);
    let k3 = "version="@.len() as int;
    assert forall|j: int| 0 <= j < l3.len() implies l3[j] != '\n' by {
        if j < k3 {
            assert(l3[j] == "version="@[j]);
        } else {
            assert(l3[j] == version[j - k3]);
        }
    }
    lemma_find_nl_at(l3, l3.len() as int);
    assert(l1.subrange(0, k1) =~= "name="@);
    assert(l2.subrange(0, k2) =~= "description="@);
    assert(l3.subrange(0, k3) =~= "version="@);
    assert(l1.subrange(k1, l1.len() as int) =~= name);
    assert(l2.subrange(k2, l2.len() as int) =~= description);
    assert(l3.subrange(k3, l3.len() as int) =~= version);
}

} // verus!
