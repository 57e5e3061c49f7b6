//! Matching a message against a query, without regard to case.

use vstd::prelude::*;
use serde_json::Value;
use crate::json::{self, json_model, json_text};
use crate::model::{views, BlockModel, ContentBlock, Message, MessageModel};
use crate::text::{chars_of, contains, contains_text};

verus! {

/// What `str::to_lowercase` makes of a text.
pub uninterp spec fn lowercase_text(s: Seq<char>) -> Seq<char>;

/// `str::to_lowercase`: the lowercase of a text by the rules of Unicode, a
/// function of the text alone, named `lowercase_text`.
#[verifier::external_body]
pub(crate) fn to_lowercase(s: &str) -> (r: String)
    ensures
        r@ == lowercase_text(s@),
{
    s.to_lowercase()
}

/// Whether `needle` occurs in the lowercase of `text`.
pub open spec fn text_matches(text: Seq<char>, needle: Seq<char>) -> bool {
    contains_text(lowercase_text(text), needle)
}

/// Whether a block matches: a text or a piece of reasoning by its text, a
/// tool call by its identifier, by its name or by the JSON text of its
/// input, the outcome of a tool call by the identifier of the call or by the
/// JSON text of its content.
pub open spec fn block_matches(block: BlockModel, needle: Seq<char>) -> bool {
    match block {
        BlockModel::Text { text } => text_matches(text, needle),
        BlockModel::Thinking { thinking } => text_matches(thinking, needle),
        BlockModel::ToolUse { id, name, input } => text_matches(id, needle) || text_matches(
            name,
            needle,
        ) || text_matches(json_text(input), needle),
        BlockModel::ToolResult { tool_use_id, content, is_error } => text_matches(
            tool_use_id,
            needle,
        ) || text_matches(json_text(content), needle),
    }
}

/// Whether some block of a sequence matches.
pub open spec fn some_block_matches(blocks: Seq<BlockModel>, needle: Seq<char>) -> bool {
    exists|i: int| 0 <= i && i < blocks.len() && #[trigger] block_matches(blocks[i], needle)
}

/// Whether some block of a content matches.
pub open spec fn content_matches(content: Option<Seq<BlockModel>>, needle: Seq<char>) -> bool {
    match content {
        Some(blocks) => some_block_matches(blocks, needle),
        None => false,
    }
}

/// The needle for a query: its lowercase.
pub fn needle_of(query: &str) -> (r: Vec<char>)
    ensures
        r@ == lowercase_text(query@),
{
    let lowered = to_lowercase(query);
    chars_of(lowered.as_str())
}

fn text_has(text: &str, needle: &Vec<char>) -> (r: bool)
    ensures
        r == text_matches(text@, needle@),
{
    let lowered = to_lowercase(text);
    let hay = chars_of(lowered.as_str());
    contains(&hay, needle)
}

fn json_has(value: &Value, needle: &Vec<char>) -> (r: bool)
    ensures
        r == text_matches(json_text(json_model(*value)), needle@),
{
    let text = json::to_text(value);
    text_has(text.as_str(), needle)
}

/// Whether `block` matches `needle`, which is taken to be in lowercase.
pub fn block_has(block: &ContentBlock, needle: &Vec<char>) -> (r: bool)
    ensures
        r == block_matches(block@, needle@),
{
    match block {
        ContentBlock::Text { text } => text_has(text.as_str(), needle),
        ContentBlock::Thinking { thinking } => text_has(thinking.as_str(), needle),
        ContentBlock::ToolUse { id, name, input } => text_has(id.as_str(), needle) || text_has(
            name.as_str(),
            needle,
        ) || json_has(input, needle),
        ContentBlock::ToolResult { tool_use_id, content, is_error } => text_has(
            tool_use_id.as_str(),
            needle,
        ) || json_has(content, needle),
    }
}

/// Whether some block of the content of `message` matches `needle`, which is
/// taken to be in lowercase.
pub fn message_matches(message: &Message, needle: &Vec<char>) -> (r: bool)
    ensures
        r == content_matches(message@.content, needle@),
{
    match &message.content {
        Some(blocks) => {
            let mut i: usize = 0;
            while i < blocks.len()
                invariant
                    i <= blocks.len(),
                    message@.content == Some(views(blocks@)),
                    forall|j: int| 0 <= j < i ==> !block_matches(views(blocks@)[j], needle@),
                decreases blocks.len() - i,
            {
                if block_has(&blocks[i], needle) {
                    assert(views(blocks@)[i as int] == blocks[i as int]@);
                    assert(block_matches(views(blocks@)[i as int], needle@));
                    return true;
                }
                i = i + 1;
            }
            false
        },
        None => false,
    }
}

/// The first `n` items of `s`, or all of `s` where it has fewer.
pub open spec fn first_n<A>(s: Seq<A>, n: nat) -> Seq<A> {
    if n < s.len() {
        s.take(n as int)
    } else {
        s
    }
}

/// The messages of `ms` whose content matches the needle, in their order.
pub open spec fn matching(ms: Seq<MessageModel>, needle: Seq<char>) -> Seq<MessageModel> {
    ms.filter(|m: MessageModel| content_matches(m.content, needle))
}

/// The items of `v` from the last to the first.
pub fn reversed<T>(v: Vec<T>) -> (r: Vec<T>)
    ensures
        r@ == v@.reverse(),
{
    let ghost given = v@;
    let mut v = v;
    let mut r: Vec<T> = Vec::new();
    while v.len() > 0
        invariant
            v@ == given.take(v.len() as int),
            v.len() <= given.len(),
            r@.len() == given.len() - v.len(),
            forall|i: int| 0 <= i < r@.len() ==> r@[i] == given[given.len() - 1 - i],
        decreases v.len(),
    {
        let x = v.pop().unwrap();
        r.push(x);
        assert(v@ =~= given.take(v.len() as int));
    }
    assert(r@ =~= given.reverse());
    r
}

/// Keeps of `messages` those whose content matches `query` without regard
/// to case, in their order, and no more than `limit` of them.
pub fn first_matches(messages: Vec<Message>, query: &str, limit: usize) -> (r: Vec<Message>)
    ensures
        views(r@) == first_n(matching(views(messages@), lowercase_text(query@)), limit as nat),
        r@.len() <= limit,
{
    let needle = needle_of(query);
    let ghost given = views(messages@);
    let ghost pred = |m: MessageModel| content_matches(m.content, needle@);
    let mut stack = reversed(messages);
    let mut results: Vec<Message> = Vec::new();
    proof {
        reveal(Seq::filter);
        assert(views(results@) =~= Seq::<MessageModel>::empty());
        assert(given.take(0) =~= Seq::<MessageModel>::empty());
        assert(views(stack@) =~= given.reverse());
    }
    while stack.len() > 0
        invariant
            stack.len() <= given.len(),
            needle@ == lowercase_text(query@),
            pred == |m: MessageModel| content_matches(m.content, needle@),
            views(stack@) == given.reverse().take(stack.len() as int),
            results.len() <= limit,
            views(results@) == first_n(
                given.take(given.len() - stack.len()).filter(pred),
                limit as nat,
            ),
        decreases stack.len(),
    {
        let ghost done = given.len() - stack.len();
        let ghost before = results@;
        let ghost rest = stack@;
        let message = stack.pop().unwrap();
        proof {
            assert(message@ == views(rest)[rest.len() - 1]);
            assert(message@ == given[done]);
            assert(given.take(done + 1) =~= given.take(done).push(given[done]));
            given.take(done).lemma_filter_push(given[done], pred);
            assert(views(stack@) =~= given.reverse().take(stack.len() as int));
        }
        if message_matches(&message, &needle) {
            if results.len() < limit {
                results.push(message);
                assert(views(results@) =~= views(before).push(message@));
            } else {
                let ghost found = given.take(done).filter(pred);
                assert(found.push(message@).take(limit as int) =~= found.take(limit as int));
            }
        }
    }
    assert(given.take(given.len() as int) =~= given);
    results
}

} // verus!
