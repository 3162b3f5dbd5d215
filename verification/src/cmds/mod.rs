//! The commands: each takes the text after its name and the caller's
//! identity, and works on the state it is handed.

use vstd::prelude::*;
use crate::util::authors::Authors;
use crate::util::consts::{is_admin, is_admin_spec, TRIGGERS};
use crate::util::corpora::Prefs;
use crate::util::links::Links;
use crate::util::memory::{first_max, scores_of, Likes, ServerLayouts};
use crate::util::message::{message_parts, Message};
use crate::util::text::{push_str, str_eq, str_owned, string_of};

pub mod _8ball;
pub mod add;
pub mod assign;
pub mod corpus;
pub mod github;
pub mod help;
pub mod like;
pub mod likes;
pub mod maintenance;
pub mod remove;
pub mod rename;
pub mod suggest;
pub mod unlike;
pub mod view;

verus! {

/// What a command says of itself: how it is called, then what it does.
pub open spec fn help_spec(usage: Seq<char>, desc: Seq<char>) -> Seq<char> {
    usage + "\n"@ + desc
}

/// What a command says of itself.
pub fn help_text(usage: &str, desc: &str) -> (r: String)
    ensures
        r@ == help_spec(usage@, desc@),
{
    let mut out: Vec<char> = Vec::new();
    push_str(&mut out, usage);
    push_str(&mut out, "\n");
    push_str(&mut out, desc);
    assert(out@ =~= help_spec(usage@, desc@));
    string_of(&out)
}

/// What is said where no layout answers to a name.
pub open spec fn no_layout_spec(name: Seq<char>) -> Seq<char> {
    "Error: `"@ + name + "` does not exist"@
}

/// What is said where no layout answers to a name.
pub fn no_layout(name: &str) -> (r: String)
    ensures
        r@ == no_layout_spec(name@),
{
    let mut out: Vec<char> = Vec::new();
    push_str(&mut out, "Error: `");
    push_str(&mut out, name);
    push_str(&mut out, "` does not exist");
    assert(out@ =~= no_layout_spec(name@));
    string_of(&out)
}

/// The state that the commands work on.
pub struct Context {
    pub layouts: ServerLayouts,
    pub likes: Likes,
    pub prefs: Prefs,
    pub corpora: Vec<String>,
    pub authors: Authors,
    pub links: Links,
    pub maintenance: bool,
}

/// What a command answers.
pub enum Reply {
    /// A text.
    Text(String),
    /// A text, and after it the layout of the name, drawn with its stats.
    Layout(String, String),
}

/// What a command answers, as plain texts.
pub enum ReplyView {
    Text(Seq<char>),
    Layout(Seq<char>, Seq<char>),
}

impl View for Reply {
    type V = ReplyView;

    open spec fn view(&self) -> ReplyView {
        match self {
            Reply::Text(text) => ReplyView::Text(text@),
            Reply::Layout(text, name) => ReplyView::Layout(text@, name@),
        }
    }
}

/// What is to be done about a message.
pub enum Action {
    /// Nothing.
    Ignore,
    /// Answer where the message came from, or to the author alone.
    Say { reply: Reply, direct: bool },
}

/// Whether a word addresses the bot.
pub open spec fn is_trigger(word: Seq<char>) -> bool {
    ||| word == "!amini"@
    ||| word == "bmini"@
    ||| word == "!cmini"@
    ||| word == "!dvormini"@
    ||| word == "!cnini"@
}

/// Whether a message is heard: it comes from no bot and is not empty; while
/// the maintenance switch is on its author is an admin; and outside a
/// private conversation it begins with a trigger.
pub open spec fn is_heard(content: Seq<char>, author_is_bot: bool, is_dm: bool, id: u64, mode: bool) -> bool {
    &&& !author_is_bot
    &&& content.len() > 0
    &&& (!mode || is_admin_spec(id))
    &&& (is_dm || is_trigger(message_parts(content, is_dm).0))
}

/// Whether an answer goes to the author alone: where the command is for the
/// bot's own channel only, and the message came from elsewhere.
pub open spec fn goes_direct(in_cmini_channel: bool, channel_only: bool) -> bool {
    !in_cmini_channel && channel_only
}

/// Whether nothing but the layouts differs.
pub open spec fn only_layouts(before: Context, after: Context) -> bool {
    &&& after.likes == before.likes
    &&& after.prefs == before.prefs
    &&& after.corpora == before.corpora
    &&& after.authors == before.authors
    &&& after.links == before.links
    &&& after.maintenance == before.maintenance
}

/// Whether nothing but the likes differs.
pub open spec fn only_likes(before: Context, after: Context) -> bool {
    &&& after.layouts == before.layouts
    &&& after.prefs == before.prefs
    &&& after.corpora == before.corpora
    &&& after.authors == before.authors
    &&& after.links == before.links
    &&& after.maintenance == before.maintenance
}

/// Whether nothing but the corpus preferences differs.
pub open spec fn only_prefs(before: Context, after: Context) -> bool {
    &&& after.layouts == before.layouts
    &&& after.likes == before.likes
    &&& after.corpora == before.corpora
    &&& after.authors == before.authors
    &&& after.links == before.links
    &&& after.maintenance == before.maintenance
}

/// Whether nothing but the maintenance switch differs.
pub open spec fn only_mode(before: Context, after: Context) -> bool {
    &&& after.layouts == before.layouts
    &&& after.likes == before.likes
    &&& after.prefs == before.prefs
    &&& after.corpora == before.corpora
    &&& after.authors == before.authors
    &&& after.links == before.links
}

/// What the command of a name does with an argument: its answer, and what
/// it changes of the state. A name that is no command's is answered with an
/// error; a command for admins answers anyone else `Unauthorized`.
pub open spec fn dispatched(
    action: Seq<char>,
    arg: Seq<char>,
    id: u64,
    roll: usize,
    author: Seq<char>,
    table: Seq<help::Row>,
    before: Context,
    after: Context,
    reply: ReplyView,
) -> bool {
    if action == ""@ {
        reply == ReplyView::Text("Try `!cmini help`"@) && after == before
    } else if action == "akl"@ {
        reply == ReplyView::Text("Not yet implemented"@) && after == before
    } else if action == "maintenance"@ || action == "1984"@ {
        &&& reply == ReplyView::Text(maintenance::answer(arg, id, before.maintenance))
        &&& after.maintenance == maintenance::mode_after(arg, id, before.maintenance)
        &&& only_mode(before, after)
    } else if action == "8ball"@ {
        reply == ReplyView::Text(_8ball::RESPONSES[roll as int % 12]@) && after == before
    } else if action == "add"@ {
        &&& only_layouts(before, after)
        &&& exists|r: Result<String, add::AddError>| #[trigger]
            add::add_post(arg, id, before.layouts@, after.layouts@, r) && reply == (match r {
                Ok(name) => ReplyView::Layout("Success!\n"@, name@),
                Err(e) => ReplyView::Text(e.message()),
            })
    } else if action == "assign"@ {
        if !is_admin_spec(id) {
            reply == ReplyView::Text("Unauthorized"@) && after == before
        } else {
            &&& only_layouts(before, after)
            &&& exists|text: Seq<char>| #[trigger]
                assign::assign_spec(arg, before.authors, before.layouts@, after.layouts@, text)
                    && reply == ReplyView::Text(text)
        }
    } else if action == "corpus"@ {
        &&& only_prefs(before, after)
        &&& reply == ReplyView::Text(corpus::answer(arg, before.corpora@))
    } else if action == "gh"@ || action == "github"@ {
        reply == ReplyView::Text(github::LINK@) && after == before
    } else if action == "help"@ {
        reply == ReplyView::Text(help::answer(arg, table)) && after == before
    } else if action == "like"@ {
        &&& only_likes(before, after)
        &&& exists|text: Seq<char>| #[trigger]
            like::like_spec(arg, id, before.layouts@, before.likes, after.likes, text) && reply
                == ReplyView::Text(text)
    } else if action == "likes"@ {
        &&& after == before
        &&& exists|text: Seq<char>| #[trigger]
            likes::likes_spec(id, author, before.likes, text) && reply == ReplyView::Text(text)
    } else if action == "remove"@ {
        &&& only_layouts(before, after)
        &&& exists|text: Seq<char>| #[trigger]
            remove::remove_spec(arg, id, before.layouts@, after.layouts@, text) && reply
                == ReplyView::Text(text)
    } else if action == "rename"@ {
        &&& only_layouts(before, after)
        &&& exists|text: Seq<char>| #[trigger]
            rename::rename_spec(arg, id, before.layouts@, after.layouts@, text) && reply
                == ReplyView::Text(text)
    } else if action == "suggest"@ {
        reply == ReplyView::Text("Received :)"@) && after == before
    } else if action == "unlike"@ {
        &&& only_likes(before, after)
        &&& exists|text: Seq<char>| #[trigger]
            unlike::unlike_spec(arg, id, before.layouts@, before.likes, after.likes, text) && reply
                == ReplyView::Text(text)
    } else if action == "view"@ {
        &&& after == before
        &&& if arg.len() == 0 {
            reply == ReplyView::Text(help_spec("view <layout name>"@, "see the stats of a layout"@))
        } else {
            match first_max(scores_of(before.layouts@, arg)) {
                Some(i) => reply == ReplyView::Layout(""@, before.layouts@[i].name@),
                None => reply == ReplyView::Text(no_layout_spec(arg)),
            }
        }
    } else {
        reply == ReplyView::Text("Error: "@ + action + " is not an available command"@) && after
            == before
    }
}

/// Whether a word addresses the bot.
pub fn addresses(word: &str) -> (r: bool)
    ensures
        r == is_trigger(word@),
{
    str_eq(word, TRIGGERS[0]) || str_eq(word, TRIGGERS[1]) || str_eq(word, TRIGGERS[2]) || str_eq(
        word,
        TRIGGERS[3],
    ) || str_eq(word, TRIGGERS[4])
}

/// Runs the command of a name on an argument.
pub fn dispatch(
    ctx: &mut Context,
    action: &str,
    arg: &str,
    id: u64,
    roll: usize,
    author: &str,
    table: &Vec<help::Row>,
) -> (reply: Reply)
    requires
        forall|i: int| 0 <= i < table@.len() ==> (#[trigger] table@[i]).0@.len() <= help::ALIGN,
    ensures
        dispatched(action@, arg@, id, roll, author@, table@, *old(ctx), *final(ctx), reply@),
{
    proof {
        reveal_strlit("");
    }
    if action.is_empty() {
        assert(action@ =~= ""@);
        Reply::Text(str_owned("Try `!cmini help`"))
    } else if str_eq(action, "akl") {
        Reply::Text(str_owned("Not yet implemented"))
    } else if str_eq(action, "maintenance") || str_eq(action, "1984") {
        Reply::Text(maintenance::Command.exec(arg, id, &mut ctx.maintenance))
    } else if str_eq(action, "8ball") {
        Reply::Text(_8ball::Command.exec(roll))
    } else if str_eq(action, "add") {
        let r = add::Command.exec(arg, id, &mut ctx.layouts);
        let reply = match &r {
            Ok(name) => Reply::Layout(str_owned("Success!\n"), name.clone()),
            Err(e) => Reply::Text(e.to_string()),
        };
        assert(add::add_post(arg@, id, old(ctx).layouts@, ctx.layouts@, r) && reply@ == (match r {
            Ok(name) => ReplyView::Layout("Success!\n"@, name@),
            Err(e) => ReplyView::Text(e.message()),
        }));
        reply
    } else if str_eq(action, "assign") {
        if assign::Command.mods_only() && !is_admin(id) {
            Reply::Text(str_owned("Unauthorized"))
        } else {
            let text = assign::Command.exec(arg, &mut ctx.layouts, &ctx.authors);
            let reply = Reply::Text(text);
            assert(assign::assign_spec(arg@, old(ctx).authors, old(ctx).layouts@, ctx.layouts@, text@)
                && reply@ == ReplyView::Text(text@));
            reply
        }
    } else if str_eq(action, "corpus") {
        Reply::Text(corpus::Command.exec(arg, id, &mut ctx.prefs, &ctx.corpora))
    } else if str_eq(action, "gh") || str_eq(action, "github") {
        Reply::Text(github::Command.exec())
    } else if str_eq(action, "help") {
        Reply::Text(help::Command.exec(arg, table))
    } else if str_eq(action, "like") {
        let text = like::Command.exec(arg, id, &ctx.layouts, &mut ctx.likes);
        let reply = Reply::Text(text);
        assert(like::like_spec(arg@, id, old(ctx).layouts@, old(ctx).likes, ctx.likes, text@)
            && reply@ == ReplyView::Text(text@));
        reply
    } else if str_eq(action, "likes") {
        let text = likes::Command.exec(id, author, &ctx.likes);
        let reply = Reply::Text(text);
        assert(likes::likes_spec(id, author@, old(ctx).likes, text@)
            && reply@ == ReplyView::Text(text@));
        reply
    } else if str_eq(action, "remove") {
        let text = remove::Command.exec(arg, id, &mut ctx.layouts);
        let reply = Reply::Text(text);
        assert(remove::remove_spec(arg@, id, old(ctx).layouts@, ctx.layouts@, text@)
            && reply@ == ReplyView::Text(text@));
        reply
    } else if str_eq(action, "rename") {
        let text = rename::Command.exec(arg, id, &mut ctx.layouts);
        let reply = Reply::Text(text);
        assert(rename::rename_spec(arg@, id, old(ctx).layouts@, ctx.layouts@, text@)
            && reply@ == ReplyView::Text(text@));
        reply
    } else if str_eq(action, "suggest") {
        Reply::Text(suggest::Command.exec())
    } else if str_eq(action, "unlike") {
        let text = unlike::Command.exec(arg, id, &ctx.layouts, &mut ctx.likes);
        let reply = Reply::Text(text);
        assert(unlike::unlike_spec(arg@, id, old(ctx).layouts@, old(ctx).likes, ctx.likes, text@)
            && reply@ == ReplyView::Text(text@));
        reply
    } else if str_eq(action, "view") {
        let reply = match view::Command.exec(arg, &ctx.layouts) {
            Ok(ll) => Reply::Layout(String::new(), ll.name.clone()),
            Err(message) => Reply::Text(message),
        };
        assert(""@ =~= Seq::<char>::empty());
        reply
    } else {
        let mut out: Vec<char> = Vec::new();
        push_str(&mut out, "Error: ");
        push_str(&mut out, action);
        push_str(&mut out, " is not an available command");
        assert(out@ =~= "Error: "@ + action@ + " is not an available command"@);
        Reply::Text(string_of(&out))
    }
}

/// Decides what is to be done about a message: whether it is heard at all,
/// which command it calls, what that command answers and changes, and where
/// the answer goes.
pub fn handle(
    ctx: &mut Context,
    content: &str,
    author_is_bot: bool,
    author: &str,
    is_dm: bool,
    in_cmini_channel: bool,
    id: u64,
    roll: usize,
) -> (r: Action)
    ensures
        match r {
            Action::Ignore => !is_heard(content@, author_is_bot, is_dm, id, old(ctx).maintenance)
                && *final(ctx) == *old(ctx),
            Action::Say { reply, direct } => {
                &&& is_heard(content@, author_is_bot, is_dm, id, old(ctx).maintenance)
                &&& direct == goes_direct(in_cmini_channel, false)
                &&& exists|table: Seq<help::Row>| #[trigger]
                    dispatched(
                        message_parts(content@, is_dm).1,
                        message_parts(content@, is_dm).2,
                        id,
                        roll,
                        author@,
                        table,
                        *old(ctx),
                        *final(ctx),
                        reply@,
                    ) && help::names_of(table) == help::names_spec()
            },
        },
{
    let msg = Message::from(content, is_dm, id);
    if author_is_bot || content.is_empty() {
        return Action::Ignore;
    }
    if !maintenance::maintenance_check(id, ctx.maintenance) {
        return Action::Ignore;
    }
    if !is_dm && !addresses(msg.trigger.as_str()) {
        return Action::Ignore;
    }
    let table = help::commands();
    let cmini_channel_only = false;
    let reply = dispatch(ctx, msg.action.as_str(), msg.arg.as_str(), id, roll, author, &table);
    proof {
        assert(help::names_of(table@) =~= help::names_spec());
        assert(dispatched(msg.action@, msg.arg@, id, roll, author@, table@, *old(ctx), *ctx, reply@));
    }
    Action::Say { reply, direct: !in_cmini_channel && cmini_channel_only }
}

} // verus!
