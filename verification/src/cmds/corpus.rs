//! Choosing a corpus.

use vstd::prelude::*;
use crate::util::corpora::{is_known, set_user_corpus, Prefs};
use crate::util::text::{lowercase, push_str, str_lower, string_of};

verus! {

/// The lines of the list of corpora: a hyphen, a space and the name, one
/// line a corpus.
pub open spec fn items_spec(corpora: Seq<String>) -> Seq<char>
    decreases corpora.len(),
{
    if corpora.len() == 0 {
        Seq::empty()
    } else {
        items_spec(corpora.drop_last()) + "- "@ + corpora.last()@ + "\n"@
    }
}

/// The list of corpora as it is shown.
pub open spec fn list_spec(corpora: Seq<String>) -> Seq<char> {
    "```\nList of Corpora\n"@ + items_spec(corpora) + "```"@
}

/// What is said once the choice is made.
pub open spec fn changed_spec(name: Seq<char>) -> Seq<char> {
    "Your corpus preference has been changed to `"@ + name + "`."@
}

/// What is said where no corpus has the name.
pub open spec fn missing_spec(name: Seq<char>) -> Seq<char> {
    "The corpus `"@ + name + "` doesn't exist."@
}

/// The answer of the command: the list where nothing is asked for, else
/// whether the corpus of the name, taken in lowercase, is known.
pub open spec fn answer(arg: Seq<char>, corpora: Seq<String>) -> Seq<char> {
    if arg.len() == 0 {
        list_spec(corpora)
    } else if is_known(corpora, lowercase(arg)) {
        changed_spec(lowercase(arg))
    } else {
        missing_spec(arg)
    }
}

/// The command that lists the corpora or chooses one.
pub struct Command;

impl Command {
    /// Lists the corpora, or makes one the choice of the caller `id`.
    pub fn exec(&self, arg: &str, id: u64, prefs: &mut Prefs, corpora: &Vec<String>) -> (r: String)
        ensures
            r@ == answer(arg@, corpora@),
            arg@.len() == 0 || !is_known(corpora@, lowercase(arg@)) ==> final(prefs)@ == old(prefs)@,
            arg@.len() > 0 && is_known(corpora@, lowercase(arg@)) ==> final(prefs)@ == old(
                prefs,
            )@.insert(id, final(prefs)@[id]) && final(prefs)@[id]@ == lowercase(arg@),
    {
        let mut out: Vec<char> = Vec::new();
        if arg.is_empty() {
            push_str(&mut out, "```\nList of Corpora\n");
            let ghost head = out@;
            let mut i: usize = 0;
            assert(corpora@.take(0) =~= Seq::<String>::empty());
            assert(out@ =~= head + items_spec(corpora@.take(0)));
            while i < corpora.len()
                invariant
                    i <= corpora.len(),
                    head == "```\nList of Corpora\n"@,
                    out@ == head + items_spec(corpora@.take(i as int)),
                decreases corpora.len() - i,
            {
                let ghost before = out@;
                push_str(&mut out, "- ");
                push_str(&mut out, corpora[i].as_str());
                push_str(&mut out, "\n");
                proof {
                    assert(corpora@.take(i + 1).drop_last() =~= corpora@.take(i as int));
                    assert(corpora@.take(i + 1).last() == corpora@[i as int]);
                    assert(out@ =~= head + items_spec(corpora@.take(i + 1)));
                }
                i += 1;
            }
            assert(corpora@.take(corpora@.len() as int) =~= corpora@);
            push_str(&mut out, "```");
            assert(out@ =~= list_spec(corpora@));
            return string_of(&out);
        }
        match set_user_corpus(prefs, corpora, id, arg) {
            Ok(_) => {
                push_str(&mut out, "Your corpus preference has been changed to `");
                push_str(&mut out, str_lower(arg).as_str());
                push_str(&mut out, "`.");
                assert(out@ =~= changed_spec(lowercase(arg@)));
            },
            Err(_) => {
                push_str(&mut out, "The corpus `");
                push_str(&mut out, arg);
                push_str(&mut out, "` doesn't exist.");
                assert(out@ =~= missing_spec(arg@));
            },
        }
        string_of(&out)
    }

    /// How the command is called.
    pub fn usage(&self) -> (r: &'static str)
        ensures
            r@ == "corpus <corpus_name>"@,
    {
        "corpus <corpus_name>"
    }

    /// What the command does.
    pub fn desc(&self) -> (r: &'static str)
        ensures
            r@ == "set your preferred corpus"@,
    {
        "set your preferred corpus"
    }
}

} // verus!
