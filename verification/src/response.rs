//! The response parser: from the text that the model wrote to an issue.
//! The first line that is not empty is the title; every later line that is
//! not empty goes to the body, followed by a line feed; the footer closes
//! the body. Parsing never fails.

use vstd::prelude::*;
use vstd::string::*;
use crate::britney::Britney;
use crate::issue::Issue;
use crate::text::{lines, split_lines, views};

verus! {

broadcast use vstd::string::group_string_axioms;

/// What closes the body of every generated issue.
pub const FOOTER: &'static str =
    "\n\n**This issue was generated by Britney, a Github Issues generator.  Check it out [here](https://www.github.com/tm26a21p/britney)**";

/// The lines of `ls` that are not empty, in order.
pub open spec fn filled(ls: Seq<Seq<char>>) -> Seq<Seq<char>> {
    ls.filter(|l: Seq<char>| l.len() > 0)
}

/// The lines of `ls`, each followed by a line feed, one after another.
pub open spec fn joined(ls: Seq<Seq<char>>) -> Seq<char>
    decreases ls.len(),
{
    if ls.len() == 0 {
        Seq::empty()
    } else {
        joined(ls.drop_last()) + ls.last() + seq!['\n']
    }
}

/// The title among the filled lines `ls`: the first of them.
pub open spec fn title_among(ls: Seq<Seq<char>>) -> Seq<char> {
    if ls.len() > 0 {
        ls.first()
    } else {
        Seq::empty()
    }
}

/// The body lines among the filled lines `ls`: all but the first, joined.
pub open spec fn body_among(ls: Seq<Seq<char>>) -> Seq<char> {
    if ls.len() > 0 {
        joined(ls.drop_first())
    } else {
        Seq::empty()
    }
}

/// The title that a response gives.
pub open spec fn parsed_title(response: Seq<char>) -> Seq<char> {
    title_among(filled(lines(response)))
}

/// The body that a response gives.
pub open spec fn parsed_body(response: Seq<char>) -> Seq<char> {
    body_among(filled(lines(response))) + FOOTER@
}

/// Filtering a sequence with one more line at its end.
pub proof fn lemma_filled_push(ls: Seq<Seq<char>>, l: Seq<char>)
    ensures
        filled(ls.push(l)) == if l.len() > 0 {
            filled(ls).push(l)
        } else {
            filled(ls)
        },
{
    reveal(Seq::filter);
    assert(ls.push(l).drop_last() =~= ls);
}

/// Where no line is filled, none is kept.
pub proof fn lemma_filled_of_blank(ls: Seq<Seq<char>>)
    requires
        forall|j: int| 0 <= j < ls.len() ==> ls[j].len() == 0,
    ensures
        filled(ls).len() == 0,
    decreases ls.len(),
{
    reveal(Seq::filter);
    if ls.len() > 0 {
        lemma_filled_of_blank(ls.drop_last());
    }
}

/// The first kept line is the first filled line.
pub proof fn lemma_filled_first(ls: Seq<Seq<char>>, k: int)
    requires
        0 <= k < ls.len(),
        ls[k].len() > 0,
        forall|j: int| 0 <= j < k ==> ls[j].len() == 0,
    ensures
        filled(ls).len() > 0,
        filled(ls).first() == ls[k],
    decreases ls.len(),
{
    reveal(Seq::filter);
    let front = ls.drop_last();
    if k == ls.len() - 1 {
        lemma_filled_of_blank(front);
    } else {
        lemma_filled_first(front, k);
    }
}

/// The title is the first line of the response that is not empty.
pub proof fn lemma_title_is_first_filled_line(response: Seq<char>, k: int)
    requires
        0 <= k < lines(response).len(),
        lines(response)[k].len() > 0,
        forall|j: int| 0 <= j < k ==> lines(response)[j].len() == 0,
    ensures
        parsed_title(response) == lines(response)[k],
{
    lemma_filled_first(lines(response), k);
}

/// A response without a filled line, the empty response among them, gives
/// an empty title and the footer alone as its body.
pub proof fn lemma_blank_response(response: Seq<char>)
    requires
        forall|j: int| 0 <= j < lines(response).len() ==> lines(response)[j].len() == 0,
    ensures
        parsed_title(response) == Seq::<char>::empty(),
        parsed_body(response) == FOOTER@,
{
    lemma_filled_of_blank(lines(response));
    assert(Seq::<char>::empty() + FOOTER@ =~= FOOTER@);
}

/// The empty response has no lines.
pub proof fn lemma_empty_response()
    ensures
        lines(Seq::<char>::empty()).len() == 0,
        parsed_title(Seq::<char>::empty()) == Seq::<char>::empty(),
        parsed_body(Seq::<char>::empty()) == FOOTER@,
{
    lemma_blank_response(Seq::<char>::empty());
}

/// Every body ends with the footer, whatever the response.
pub proof fn lemma_body_ends_with_footer(response: Seq<char>)
    ensures
        FOOTER@.is_suffix_of(parsed_body(response)),
{
    let lead = body_among(filled(lines(response)));
    assert((lead + FOOTER@).subrange(lead.len() as int, (lead + FOOTER@).len() as int)
        =~= FOOTER@);
}

impl Britney {
    /// What closes the body of every generated issue.
    pub fn body_footer(&self) -> (footer: &'static str)
        ensures
            footer@ == FOOTER@,
    {
        FOOTER
    }

    /// The issue that `response` holds. This never fails: a response
    /// without a filled line gives an empty title and a body that is the
    /// footer.
    pub fn parse_response(&self, response: String) -> (issue: Issue)
        ensures
            issue@.title == parsed_title(response@),
            issue@.body == parsed_body(response@),
            FOOTER@.is_suffix_of(issue@.body),
    {
        let ls = split_lines(response.as_str());
        let mut title = String::new();
        let mut body = String::new();
        let mut is_title = true;
        let mut i: usize = 0;
        assert(views(ls@).take(0) =~= Seq::<Seq<char>>::empty());
        proof {
            lemma_filled_of_blank(views(ls@).take(0));
        }
        while i < ls.len()
            invariant
                i <= ls@.len(),
                is_title == (filled(views(ls@).take(i as int)).len() == 0),
                title@ == title_among(filled(views(ls@).take(i as int))),
                body@ == body_among(filled(views(ls@).take(i as int))),
            decreases ls@.len() - i,
        {
            let line = ls[i].as_str();
            let ghost seen = filled(views(ls@).take(i as int));
            proof {
                assert(views(ls@).take(i + 1) =~= views(ls@).take(i as int).push(line@));
                lemma_filled_push(views(ls@).take(i as int), line@);
            }
            if !line.is_empty() {
                if is_title {
                    title = line.to_owned();
                    is_title = false;
                    assert(seen.push(line@).drop_first() =~= Seq::<Seq<char>>::empty());
                } else {
                    body.append(line);
                    body.append("\n");
                    proof {
                        reveal_strlit("\n");
                        assert("\n"@ =~= seq!['\n']);
                        assert(seen.push(line@).drop_first() =~= seen.drop_first().push(line@));
                        assert(seen.drop_first().push(line@).drop_last() =~= seen.drop_first());
                    }
                }
            }
            i = i + 1;
        }
        assert(views(ls@).take(ls@.len() as int) =~= views(ls@));
        body.append(self.body_footer());
        proof {
            lemma_body_ends_with_footer(response@);
        }
        Issue { title, body }
    }
}

} // verus!
