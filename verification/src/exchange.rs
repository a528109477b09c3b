//! Answers to requests for work outside the library, such as file access.
use crate::error::{Error, ErrorView};
use vstd::prelude::*;

verus! {

/// The answer to a request.
#[derive(Debug)]
pub enum Reply {
    /// The work was done.
    Done,
    /// The work was done and gave a text.
    Text(String),
    /// The work was done and gave a yes or a no.
    Flag(bool),
    /// The work failed.
    Failed(Error),
}

/// What an answer says.
pub enum ReplyView {
    Done,
    Text(Seq<char>),
    Flag(bool),
    Failed(ErrorView),
}

impl View for Reply {
    type V = ReplyView;

    open spec fn view(&self) -> ReplyView {
        match self {
            Reply::Done => ReplyView::Done,
            Reply::Text(text) => ReplyView::Text(text@),
            Reply::Flag(flag) => ReplyView::Flag(*flag),
            Reply::Failed(error) => ReplyView::Failed(error@),
        }
    }
}

/// What a row of answers says.
pub open spec fn said(replies: Seq<Reply>) -> Seq<ReplyView> {
    Seq::new(replies.len(), |i: int| replies[i]@)
}

/// The text of an answer. An answer without a text counts as the empty text.
pub open spec fn reply_text(reply: ReplyView) -> Seq<char> {
    match reply {
        ReplyView::Text(text) => text,
        _ => Seq::<char>::empty(),
    }
}

/// The text of the answer at a place. An answer that has not come yet counts as
/// the empty text.
pub open spec fn text_at(replies: Seq<ReplyView>, at: int) -> Seq<char> {
    if 0 <= at < replies.len() {
        reply_text(replies[at])
    } else {
        Seq::<char>::empty()
    }
}

/// Whether the answer at a place is a yes.
pub open spec fn flag_at(replies: Seq<ReplyView>, at: int) -> bool {
    0 <= at < replies.len() && replies[at] == ReplyView::Flag(true)
}

/// The text of the answer at a place.
pub fn text_of(replies: &Vec<Reply>, at: usize) -> (r: String)
    ensures
        r@ == text_at(said(replies@), at as int),
{
    if at < replies.len() {
        match &replies[at] {
            Reply::Text(text) => text.clone(),
            _ => String::new(),
        }
    } else {
        String::new()
    }
}

/// Whether the answer at a place is a yes.
pub fn flag_of(replies: &Vec<Reply>, at: usize) -> (r: bool)
    ensures
        r == flag_at(said(replies@), at as int),
{
    if at < replies.len() {
        match &replies[at] {
            Reply::Flag(flag) => *flag,
            _ => false,
        }
    } else {
        false
    }
}

} // verus!
