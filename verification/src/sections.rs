//! The sections of the index page: each names repositories, which are
//! recorded under the section and fetched when the registry does not hold
//! them yet.
use vstd::prelude::*;
use crate::codeberg::{after_last_slash, last_segment, lemma_after_last_slash};
use crate::text::{chars_of, string_from_range, to_lowercase, unicode_lowercase, strings_view};

verus! {

/// The repository id under which a section entry is recorded: the entry in
/// lower case.
pub fn section_repo_id(library: &str) -> (res: String)
    ensures
        res@ == unicode_lowercase(library@),
{
    to_lowercase(library)
}

/// The sections that `toml::from_str` reads out of a TOML text as a map
/// from section name to its list of repositories, or none when the text is
/// not such a table.
pub uninterp spec fn toml_section_lists(text: Seq<char>) -> Option<Map<Seq<char>, Seq<Seq<char>>>>;

/// Calls `toml::from_str::<HashMap<String, Vec<String>>>` on `text` and
/// hands back its entries. What the parse gives is named
/// `toml_section_lists`; the entries come in the map's (unspecified) order,
/// each section once.
#[verifier::external_body]
fn parse_section_lists(text: &str) -> (res: Option<Vec<(String, Vec<String>)>>)
    ensures
        res is Some <==> toml_section_lists(text@) is Some,
        res matches Some(v) ==> {
            let m = toml_section_lists(text@)->Some_0;
            &&& m.dom().finite()
            &&& v@.len() == m.len()
            &&& forall|i: int, j: int|
                0 <= i < j < v@.len() ==> (#[trigger] v@[i]).0@ != (#[trigger] v@[j]).0@
            &&& forall|i: int|
                0 <= i < v@.len() ==> m.dom().contains((#[trigger] v@[i]).0@) && m[v@[i].0@]
                    == strings_view(v@[i].1@)
        },
{
    toml::from_str::<std::collections::HashMap<String, Vec<String>>>(text).ok().map(
        |m| m.into_iter().collect(),
    )
}

/// Whether `keys` lists every section of `m` once.
pub open spec fn lists_each_section_once(
    m: Map<Seq<char>, Seq<Seq<char>>>,
    keys: Seq<Seq<char>>,
) -> bool {
    &&& keys.len() == m.len()
    &&& forall|i: int, j: int| 0 <= i < j < keys.len() ==> keys[i] != keys[j]
    &&& forall|i: int| 0 <= i < keys.len() ==> m.dom().contains(#[trigger] keys[i])
}

/// The pairs (section, repository id) of the sections `keys` of `m`, in
/// that order: for each section, each entry of its list in lower case.
pub open spec fn section_pairs(m: Map<Seq<char>, Seq<Seq<char>>>, keys: Seq<Seq<char>>) -> Seq<
    (Seq<char>, Seq<char>),
>
    decreases keys.len(),
{
    if keys.len() == 0 {
        Seq::empty()
    } else {
        section_pairs(m, keys.drop_last()) + section_entry_pairs(keys.last(), m[keys.last()])
    }
}

/// The pairs (section, repository id) of one section's list.
pub open spec fn section_entry_pairs(section: Seq<char>, list: Seq<Seq<char>>) -> Seq<
    (Seq<char>, Seq<char>),
> {
    list.map_values(|l: Seq<char>| (section, unicode_lowercase(l)))
}

/// The view of a list of text pairs.
pub open spec fn pairs_view(v: Seq<(String, String)>) -> Seq<(Seq<char>, Seq<char>)> {
    v.map_values(|p: (String, String)| (p.0@, p.1@))
}

/// Every (section, repository id) pair of a sections TOML text: for each
/// section, each entry of its list in lower case. The sections come in some
/// order (the text is read into a map); none when the text is not a table
/// of lists of strings.
pub fn section_entries(toml_text: &str) -> (res: Option<Vec<(String, String)>>)
    ensures
        res is Some <==> toml_section_lists(toml_text@) is Some,
        res matches Some(v) ==> exists|keys: Seq<Seq<char>>|
            lists_each_section_once(toml_section_lists(toml_text@)->Some_0, keys) && pairs_view(v@)
                == section_pairs(toml_section_lists(toml_text@)->Some_0, keys),
{
    let groups = match parse_section_lists(toml_text) {
        Some(g) => g,
        None => {
            return None;
        },
    };
    let ghost m = toml_section_lists(toml_text@)->Some_0;
    let ghost keys = groups@.map_values(|g: (String, Vec<String>)| g.0@);
    let mut out: Vec<(String, String)> = Vec::new();
    let mut i: usize = 0;
    while i < groups.len()
        invariant
            i <= groups@.len(),
            keys == groups@.map_values(|g: (String, Vec<String>)| g.0@),
            forall|k: int|
                0 <= k < groups@.len() ==> m.dom().contains((#[trigger] groups@[k]).0@) && m[groups@[
                    k].0@] == strings_view(groups@[k].1@),
            pairs_view(out@) == section_pairs(m, keys.take(i as int)),
        decreases groups@.len() - i,
    {
        let section = &groups[i].0;
        let list = &groups[i].1;
        let ghost before = out@;
        let mut j: usize = 0;
        while j < list.len()
            invariant
                j <= list@.len(),
                pairs_view(out@) == pairs_view(before) + section_entry_pairs(
                    section@,
                    strings_view(list@).take(j as int),
                ),
            decreases list@.len() - j,
        {
            let id = section_repo_id(list[j].as_str());
            let ghost mid = out@;
            out.push((section.clone(), id));
            proof {
                assert(pairs_view(out@) == pairs_view(mid).push((section@, unicode_lowercase(list@[j as int]@))));
                assert(strings_view(list@).take(j + 1) == strings_view(list@).take(j as int).push(
                    list@[j as int]@,
                ));
                assert(section_entry_pairs(section@, strings_view(list@).take(j + 1))
                    == section_entry_pairs(section@, strings_view(list@).take(j as int)).push(
                    (section@, unicode_lowercase(list@[j as int]@)),
                ));
            }
            j = j + 1;
        }
        proof {
            assert(strings_view(list@).take(list@.len() as int) == strings_view(list@));
            assert(keys.take(i + 1).drop_last() == keys.take(i as int));
            assert(keys.take(i + 1).last() == section@);
        }
        i = i + 1;
    }
    proof {
        assert(keys.take(groups@.len() as int) == keys);
        assert forall|a: int, b: int| 0 <= a < b < keys.len() implies keys[a] != keys[b] by {
            assert(keys[a] == groups@[a].0@ && keys[b] == groups@[b].0@);
        }
        assert forall|a: int| 0 <= a < keys.len() implies m.dom().contains(#[trigger] keys[a]) by {
            assert(keys[a] == groups@[a].0@);
        }
        assert(lists_each_section_once(m, keys));
    }
    Some(out)
}

/// The owner and name of a section entry `owner/name` (or
/// `platform/owner/name`): the last two `/`-separated segments, read from
/// the end (`rsplit('/')`).
pub open spec fn section_owner_and_name(id: Seq<char>) -> (Seq<char>, Seq<char>) {
    let k = after_last_slash(id, id.len() as int);
    (last_segment(id.take(k - 1)), id.skip(k))
}

/// The owner and name of a section entry (see `section_owner_and_name`).
/// An entry without a `/` names no owner and is not accepted.
pub fn section_owner_and_name_of(id: &str) -> (res: (String, String))
    requires
        exists|i: int| 0 <= i < id@.len() && id@[i] == '/',
    ensures
        (res.0@, res.1@) == section_owner_and_name(id@),
{
    let cs = chars_of(id);
    let ghost s = cs@;
    let mut k = cs.len();
    proof {
        lemma_after_last_slash(s, k as int);
    }
    while k > 0 && cs[k - 1] != '/'
        invariant
            s == cs@,
            k <= s.len(),
            after_last_slash(s, k as int) == after_last_slash(s, s.len() as int),
            forall|i: int| k <= i < s.len() ==> s[i] != '/',
        decreases k,
    {
        k = k - 1;
    }
    proof {
        if k == 0 {
            let w = choose|i: int| 0 <= i < id@.len() && id@[i] == '/';
            assert(s[w] == '/');
        }
    }
    assert(k > 0);
    let name = string_from_range(&cs, k, cs.len());
    let mut j = k - 1;
    let ghost head = s.take(k - 1);
    proof {
        lemma_after_last_slash(head, j as int);
    }
    while j > 0 && cs[j - 1] != '/'
        invariant
            s == cs@,
            j < k <= s.len(),
            head == s.take(k - 1),
            after_last_slash(head, j as int) == after_last_slash(head, head.len() as int),
        decreases j,
    {
        assert(head[j - 1] == cs@[j - 1]);
        j = j - 1;
    }
    if j > 0 {
        assert(head[j - 1] == cs@[j - 1]);
    }
    let owner = string_from_range(&cs, j, k - 1);
    assert(owner@ == head.skip(j as int));
    (owner, name)
}

/// The first characters of the GraphQL reply that the section fetch cuts
/// off, leaving the repository object.
pub open spec fn reply_prefix() -> Seq<char> {
    "{\"data\":{\"repository\":"@
}

/// The repository object inside a GraphQL reply
/// `{"data":{"repository":<object>}}`: the reply without its first 22 and
/// its last 2 characters. A reply of another shape is not accepted.
pub fn repository_payload(reply: &str) -> (res: String)
    requires
        reply@.len() >= reply_prefix().len() + 2,
        reply@.take(reply_prefix().len() as int) == reply_prefix(),
        reply@.subrange(reply@.len() - 2, reply@.len() as int) == "}}"@,
    ensures
        res@ == reply@.subrange(reply_prefix().len() as int, reply@.len() - 2),
{
    let cs = chars_of(reply);
    proof {
        reveal_strlit("{\"data\":{\"repository\":");
    }
    string_from_range(&cs, 22, cs.len() - 2)
}

} // verus!
