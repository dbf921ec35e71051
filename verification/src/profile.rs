//! A profile's page: how many posts it says that the profile has.
use crate::pattern;
use crate::pattern::Pattern;
use crate::reply;
use crate::text;
use crate::text::{chars_of, replace_text, same_text, whole_string};
use vstd::prelude::*;

verus! {

/// What a magnitude multiplies a figure by.
pub open spec fn multiplier(magnitude: Option<Seq<char>>) -> u64 {
    match magnitude {
        Some(m) => if m == "K"@ || m == "k"@ {
            1_000
        } else if m == "M"@ || m == "m"@ {
            1_000_000
        } else {
            1
        },
        None => 1,
    }
}

/// The number of posts in a profile's description, as a figure without its
/// thousands separators and what it is to be multiplied by.
pub open spec fn described_count(desc: Seq<char>) -> Option<(Seq<char>, u64)> {
    match Pattern::PostCount.leftmost(desc, 0) {
        Some((i, m)) => Some((text::replaced(m.groups[0]->0, ","@, ""@), multiplier(m.groups[1]))),
        None => None,
    }
}

/// The description on the page of a profile.
pub open spec fn page_description(status: u16, page: Seq<char>) -> Option<Seq<char>> {
    if reply::success(status) {
        Pattern::OgDescription.first_group(page)
    } else {
        None
    }
}

/// A count as it is returned, over character sequences.
pub open spec fn count_view(r: Option<(String, u64)>) -> Option<(Seq<char>, u64)> {
    match r {
        Some((figure, times)) => Some((figure@, times)),
        None => None,
    }
}

/// What a magnitude multiplies a figure by.
fn multiplier_of(magnitude: &Option<String>) -> (r: u64)
    ensures
        r == multiplier(text::opt_text(*magnitude)),
{
    match magnitude {
        Some(m) => if same_text(m.as_str(), "K") || same_text(m.as_str(), "k") {
            1_000
        } else if same_text(m.as_str(), "M") || same_text(m.as_str(), "m") {
            1_000_000
        } else {
            1
        },
        None => 1,
    }
}

/// The number of posts in a profile's description (`8,579 Posts`), as a figure
/// and what it is to be multiplied by. Big numbers are rounded (`1.2K`), so the
/// figure may have a fraction.
pub fn count_parts(desc: &str) -> (r: Option<(String, u64)>)
    ensures
        count_view(r) == described_count(desc@),
{
    let caught = Pattern::PostCount.capture(desc);
    let ghost all = pattern::captured(caught);
    proof {
        reveal_strlit(",");
        Pattern::PostCount.lemma_leftmost(desc@, 0);
        if let Some((i, m)) = Pattern::PostCount.leftmost(desc@, 0) {
            assert(m.groups.len() == 2);
            assert(all->0[1] == m.groups[0]);
            assert(all->0[2] == m.groups[1]);
        }
    }
    match caught {
        Some(groups) => {
            assert(all->0 == groups@.map_values(|o: Option<String>| text::opt_text(o)));
            assert(all->0.len() == groups@.len());
            match &groups[1] {
                Some(figure) => {
                    let plain = replace_text(&chars_of(figure.as_str()), ",", "");
                    Some((whole_string(&plain), multiplier_of(&groups[2])))
                },
                None => None,
            }
        },
        None => None,
    }
}

/// The description on the page of a profile. It only serves to tell how many
/// posts there are while a profile is scanned, so a miss is no error.
pub fn profile_description(status: u16, page: &str) -> (r: Option<String>)
    ensures
        text::opt_text(r) == page_description(status, page@),
{
    if 200 <= status && status < 300 {
        Pattern::OgDescription.capture_first(page)
    } else {
        None
    }
}

/// A figure starts with a digit and has no thousands separators.
pub proof fn law_figures_have_no_separators(desc: Seq<char>)
    ensures
        described_count(desc) matches Some((figure, times)) ==> {
            &&& figure.len() > 0 && pattern::digit(figure[0])
            &&& forall|k: int| 0 <= k < figure.len() ==> #[trigger] figure[k] != ','
            &&& times == 1 || times == 1_000 || times == 1_000_000
        },
{
    reveal_strlit(",");
    reveal_strlit("");
    Pattern::PostCount.lemma_leftmost(desc, 0);
    if let Some((i, m)) = Pattern::PostCount.leftmost(desc, 0) {
        let raw = m.groups[0]->0;
        text::lemma_run_end(desc, i + 1, pattern::figures());
        assert(raw[0] == desc[i]);
        lemma_without_commas(raw, 0);
        assert(!text::occurs_at(raw, ","@, 0)) by {
            if text::occurs_at(raw, ","@, 0) {
                assert(raw.subrange(0, 1)[0] == ',');
            }
        }
        assert(text::replaced(raw, ","@, ""@) == seq![raw[0]] + text::replaced_from(
            raw,
            ","@,
            ""@,
            1,
        ));
    }
}

/// Replacing commas by nothing leaves none.
proof fn lemma_without_commas(s: Seq<char>, i: int)
    requires
        0 <= i,
    ensures
        forall|k: int|
            0 <= k < text::replaced_from(s, ","@, ""@, i).len() ==> #[trigger] text::replaced_from(
                s,
                ","@,
                ""@,
                i,
            )[k] != ',',
    decreases s.len() - i,
{
    reveal_strlit(",");
    reveal_strlit("");
    if i < s.len() {
        let rest = text::replaced_from(s, ","@, ""@, i + 1);
        lemma_without_commas(s, i + 1);
        if text::occurs_at(s, ","@, i) {
            assert(text::replaced_from(s, ","@, ""@, i) == ""@ + rest);
            assert(""@ + rest == rest);
        } else {
            if s[i] == ',' {
                assert(s.subrange(i, i + 1) == ","@);
            }
            assert(text::replaced_from(s, ","@, ""@, i) == seq![s[i]] + rest);
            assert forall|k: int| 0 <= k < (seq![s[i]] + rest).len() implies #[trigger] (seq![s[i]]
                + rest)[k] != ',' by {
                if k > 0 {
                    assert((seq![s[i]] + rest)[k] == rest[k - 1]);
                }
            }
        }
    }
}

/// The count in a description is the figure of the pattern without its commas,
/// times a thousand or a million where a letter behind it says so.
pub proof fn law_count_of_a_description(desc: Seq<char>)
    ensures
        match Pattern::PostCount.leftmost(desc, 0) {
            Some((i, m)) => described_count(desc) matches Some((figure, times)) && figure
                == m.groups[0]->0.filter(|c: char| c != ',') && times as int == match m.groups[1] {
                Some(letter) => if letter == "K"@ || letter == "k"@ {
                    1_000int
                } else if letter == "M"@ || letter == "m"@ {
                    1_000_000int
                } else {
                    1int
                },
                None => 1int,
            },
            None => described_count(desc) is None,
        },
{
    if let Some((i, m)) = Pattern::PostCount.leftmost(desc, 0) {
        lemma_commas_filtered(m.groups[0]->0, 0);
        let raw = m.groups[0]->0;
        assert(raw.subrange(0, raw.len() as int) == raw);
    }
}

/// Replacing commas by nothing filters them out.
proof fn lemma_commas_filtered(s: Seq<char>, i: int)
    requires
        0 <= i <= s.len(),
    ensures
        text::replaced_from(s, ","@, ""@, i) == s.subrange(i, s.len() as int).filter(
            |c: char| c != ',',
        ),
    decreases s.len() - i,
{
    reveal_strlit(",");
    reveal_strlit("");
    let keep = |c: char| c != ',';
    let tail = s.subrange(i, s.len() as int);
    if i < s.len() {
        lemma_commas_filtered(s, i + 1);
        let rest = s.subrange(i + 1, s.len() as int);
        assert(tail == seq![s[i]] + rest);
        rest.lemma_filter_prepend(s[i], keep);
        if s[i] == ',' {
            assert(s.subrange(i, i + 1) == ","@);
            assert(text::occurs_at(s, ","@, i));
            assert(""@ + rest.filter(keep) == rest.filter(keep));
        } else if text::occurs_at(s, ","@, i) {
            assert(s.subrange(i, i + 1)[0] == ',');
        }
    } else {
        reveal(Seq::filter);
        assert(tail == Seq::<char>::empty());
    }
}

/// The description of a profile is read from its page exactly when the page was
/// served.
pub proof fn law_description_needs_a_page(status: u16, page: Seq<char>)
    ensures
        200 <= status < 300 ==> page_description(status, page)
            == Pattern::OgDescription.first_group(page),
        !(200 <= status < 300) ==> page_description(status, page) is None,
{
}

} // verus!
