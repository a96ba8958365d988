//! The search: candidates from two sources, each with its snippet and its
//! relevance, ranked together and cut to the best.
//!
//! A blank query finds nothing, and the store is not asked. Any other query
//! is put in lower case between two `%` and handed to the store twice: once
//! for the messages whose content holds it, once for the conversations that
//! have a summary and whose name or summary holds it. Each row that comes
//! back becomes a result with a snippet for a limit of 200 characters and
//! with the points and the length of its content. The caller's `rank_of` gives
//! each result its rank from these two; the results are then put in
//! descending order of rank, and the first 50 are returned.
//!
//! The score of a result is the quotient of its points by the decimal
//! logarithm of its length, or by 1 where that is smaller. It is no whole
//! number, so this library does not form it: `rank_of` stands for it, and
//! must give the higher rank to the higher score.

use vstd::prelude::*;
use vstd::utf8::encode_utf8;
use crate::database::{mismatch, mismatch_text, rows_of};
use crate::query::{parse_query, term_views, Term, TermView};
use crate::ranking::{descending, lemma_ranked, rank_results, ranked};
use crate::records::{
    conversation_match_reader, decode_conversation_matches, decode_message_matches,
    message_match_reader, records_of, ConversationMatch, ConversationMatchView, MessageMatch,
    MessageMatchView,
};
use crate::relevance::{count_points, points, Relevance};
use crate::session::{
    finished, lemma_script_start, lemma_script_step, returned, Failure, FailureModel, Next, Reply,
    Request, Session, Stage,
};
use crate::snippet::{snippet, snippet_for};
use crate::sql::{Params, ParamsView, SqlValueView};
use crate::text::{
    capped, chars_of, is_blank, joined, lemma_no_terms, lowercase, terms_of, to_lowercase,
};

verus! {

/// The query for the messages whose content holds the pattern.
pub const MESSAGE_SEARCH_SQL: &'static str = "
        SELECT 
            m.id,
            m.conversation_id,
            c.name as conversation_name,
            m.content,
            m.role,
            c.created_at
        FROM messages m
        JOIN conversations c ON m.conversation_id = c.id
        WHERE LOWER(m.content) LIKE ?1
        ORDER BY c.created_at DESC, m.seq ASC
        LIMIT 50
    ";

/// The query for the conversations that have a summary and whose name or
/// summary holds the pattern.
pub const CONVERSATION_SEARCH_SQL: &'static str = "
        SELECT 
            id,
            id as conversation_id,
            name as conversation_name,
            COALESCE(summary, '') as content,
            created_at
        FROM conversations
        WHERE (LOWER(name) LIKE ?1 OR LOWER(summary) LIKE ?1)
            AND (summary IS NOT NULL AND summary != '')
        ORDER BY created_at DESC
        LIMIT 30
    ";

/// The most messages that a search takes as candidates.
pub const MESSAGE_CANDIDATES: usize = 50;

/// The most conversations that a search takes as candidates.
pub const CONVERSATION_CANDIDATES: usize = 30;

/// The most results that a search returns.
pub const RESULT_LIMIT: usize = 50;

/// The limit of the snippet of a result: the most characters that a snippet
/// round a match holds, and the most of the content that a snippet without
/// a match shows.
pub const SNIPPET_LENGTH: usize = 200;

/// The number of columns of a found message.
pub const MESSAGE_MATCH_COLUMNS: usize = 6;

/// The number of columns of a found conversation.
pub const CONVERSATION_MATCH_COLUMNS: usize = 5;

/// One result of a search.
#[derive(Debug, PartialEq, Eq)]
pub struct SearchResult {
    /// The id of the message or conversation that was found.
    pub id: i64,
    /// The id of the conversation that owns it.
    pub conversation_id: i64,
    /// The display name of that conversation.
    pub conversation_name: String,
    /// `conversation`, or `message_` and the message's role.
    pub content_type: String,
    /// The whole content that matched.
    pub content: String,
    /// The excerpt of the content round the match.
    pub snippet: String,
    /// The points and the length from which the score follows.
    pub relevance: Relevance,
    /// The place of the score in the order of all scores: of two results the
    /// one with the higher rank comes first.
    pub rank: u64,
    /// When the owning conversation was created.
    pub created_at: String,
}

/// What a `SearchResult` stands for.
pub struct SearchResultView {
    pub id: i64,
    pub conversation_id: i64,
    pub conversation_name: Seq<char>,
    pub content_type: Seq<char>,
    pub content: Seq<char>,
    pub snippet: Seq<char>,
    pub points: u64,
    pub length: nat,
    pub rank: u64,
    pub created_at: Seq<char>,
}

impl DeepView for SearchResult {
    type V = SearchResultView;

    open spec fn deep_view(&self) -> SearchResultView {
        SearchResultView {
            id: self.id,
            conversation_id: self.conversation_id,
            conversation_name: self.conversation_name@,
            content_type: self.content_type@,
            content: self.content@,
            snippet: self.snippet@,
            points: self.relevance.points,
            length: self.relevance.length as nat,
            rank: self.rank,
            created_at: self.created_at@,
        }
    }
}

/// The pattern that the store is asked for: the query in lower case between
/// two `%`.
pub open spec fn pattern_of(query: Seq<char>) -> Seq<char> {
    "%"@ + lowercase(query) + "%"@
}

/// The result that a found message gives for `terms`, with the rank `rank`.
pub open spec fn message_result(
    found: MessageMatchView,
    terms: Seq<TermView>,
    rank: u64,
) -> SearchResultView {
    SearchResultView {
        id: found.id,
        conversation_id: found.conversation_id,
        conversation_name: found.conversation_name,
        content_type: "message_"@ + found.role,
        content: found.content,
        snippet: snippet(found.content, lowercase(found.content), terms, SNIPPET_LENGTH as int),
        points: capped(points(lowercase(found.content), terms) as int),
        length: encode_utf8(found.content).len(),
        rank,
        created_at: found.created_at,
    }
}

/// The result that a found conversation gives for `terms`, with the rank
/// `rank`.
pub open spec fn conversation_result(
    found: ConversationMatchView,
    terms: Seq<TermView>,
    rank: u64,
) -> SearchResultView {
    SearchResultView {
        id: found.id,
        conversation_id: found.conversation_id,
        conversation_name: found.conversation_name,
        content_type: "conversation"@,
        content: found.content,
        snippet: snippet(found.content, lowercase(found.content), terms, SNIPPET_LENGTH as int),
        points: capped(points(lowercase(found.content), terms) as int),
        length: encode_utf8(found.content).len(),
        rank,
        created_at: found.created_at,
    }
}

/// The snippet and the relevance of `content` for `terms`.
fn assess(content: &str, terms: &Vec<Term>) -> (assessed: (String, Relevance))
    ensures
        assessed.0@ == snippet(
            content@,
            lowercase(content@),
            terms.deep_view(),
            SNIPPET_LENGTH as int,
        ),
        assessed.1.points == capped(points(lowercase(content@), terms.deep_view()) as int),
        assessed.1.length == encode_utf8(content@).len(),
{
    let lowered = to_lowercase(content);
    let lowered_content = chars_of(lowered.as_str());
    let snippet = snippet_for(content, &lowered_content, terms, SNIPPET_LENGTH);
    let points = count_points(&lowered_content, terms);
    (snippet, Relevance { points, length: content.as_bytes().len() })
}

/// Makes the result of a found message: its snippet, its relevance, and the
/// rank that `rank_of` gives for its points and its length.
pub fn score_message<F: Fn(u64, usize) -> u64>(
    found: MessageMatch,
    terms: &Vec<Term>,
    rank_of: &F,
) -> (result: SearchResult)
    requires
        forall|points: u64, length: usize| call_requires(*rank_of, (points, length)),
    ensures
        result.deep_view() == message_result(found.deep_view(), terms.deep_view(), result.rank),
        call_ensures(*rank_of, (result.relevance.points, result.relevance.length), result.rank),
{
    let (snippet, relevance) = assess(found.content.as_str(), terms);
    let rank = rank_of(relevance.points, relevance.length);
    SearchResult {
        id: found.id,
        conversation_id: found.conversation_id,
        conversation_name: found.conversation_name,
        content_type: joined("message_", found.role.as_str()),
        content: found.content,
        snippet,
        relevance,
        rank,
        created_at: found.created_at,
    }
}

/// Makes the result of a found conversation: its snippet, its relevance, and
/// the rank that `rank_of` gives for its points and its length.
pub fn score_conversation<F: Fn(u64, usize) -> u64>(
    found: ConversationMatch,
    terms: &Vec<Term>,
    rank_of: &F,
) -> (result: SearchResult)
    requires
        forall|points: u64, length: usize| call_requires(*rank_of, (points, length)),
    ensures
        result.deep_view() == conversation_result(
            found.deep_view(),
            terms.deep_view(),
            result.rank,
        ),
        call_ensures(*rank_of, (result.relevance.points, result.relevance.length), result.rank),
{
    let (snippet, relevance) = assess(found.content.as_str(), terms);
    let rank = rank_of(relevance.points, relevance.length);
    SearchResult {
        id: found.id,
        conversation_id: found.conversation_id,
        conversation_name: found.conversation_name,
        content_type: "conversation".to_owned(),
        content: found.content,
        snippet,
        relevance,
        rank,
        created_at: found.created_at,
    }
}

/// `scored` holds the results of the found messages, in their order, and
/// behind them those of the found conversations, in theirs, each with a rank
/// that `rank_of` gives for its points and its length.
pub open spec fn scores<F: Fn(u64, usize) -> u64>(
    messages: Seq<MessageMatchView>,
    conversations: Seq<ConversationMatchView>,
    terms: Seq<TermView>,
    rank_of: F,
    scored: Seq<SearchResult>,
) -> bool {
    &&& scored.len() == messages.len() + conversations.len()
    &&& forall|i: int|
        0 <= i < messages.len() ==> (#[trigger] scored[i]).deep_view() == message_result(
            messages[i],
            terms,
            scored[i].rank,
        )
    &&& forall|i: int|
        0 <= i < conversations.len() ==> (#[trigger] scored[messages.len()
            + i]).deep_view() == conversation_result(
            conversations[i],
            terms,
            scored[messages.len() + i].rank,
        )
    &&& forall|i: int|
        0 <= i < scored.len() ==> call_ensures(
            rank_of,
            ((#[trigger] scored[i]).relevance.points, scored[i].relevance.length),
            scored[i].rank,
        )
}

/// Makes the results of all that was found: those of the messages first,
/// then those of the conversations.
pub fn score_candidates<F: Fn(u64, usize) -> u64>(
    messages: Vec<MessageMatch>,
    conversations: Vec<ConversationMatch>,
    terms: &Vec<Term>,
    rank_of: &F,
) -> (scored: Vec<SearchResult>)
    requires
        forall|points: u64, length: usize| call_requires(*rank_of, (points, length)),
    ensures
        scores(
            messages.deep_view(),
            conversations.deep_view(),
            terms.deep_view(),
            *rank_of,
            scored@,
        ),
{
    let ghost found_messages = messages.deep_view();
    let ghost found_conversations = conversations.deep_view();
    let mut scored: Vec<SearchResult> = Vec::new();
    let mut messages = messages;
    let mut conversations = conversations;
    let total: usize = messages.len();
    let mut i: usize = 0;
    while i < total
        invariant
            i <= total,
            total == found_messages.len(),
            messages.len() == total - i,
            forall|k: int|
                0 <= k < messages.len() ==> (#[trigger] messages[k]).deep_view()
                    == found_messages[i + k],
            forall|points: u64, length: usize| call_requires(*rank_of, (points, length)),
            scores(
                found_messages.take(i as int),
                Seq::empty(),
                terms.deep_view(),
                *rank_of,
                scored@,
            ),
        decreases total - i,
    {
        let found = messages.remove(0);
        let result = score_message(found, terms, rank_of);
        scored.push(result);
        i += 1;
    }
    assert(found_messages.take(total as int) =~= found_messages);
    let others: usize = conversations.len();
    let mut j: usize = 0;
    while j < others
        invariant
            j <= others,
            others == found_conversations.len(),
            conversations.len() == others - j,
            forall|k: int|
                0 <= k < conversations.len() ==> (#[trigger] conversations[k]).deep_view()
                    == found_conversations[j + k],
            forall|points: u64, length: usize| call_requires(*rank_of, (points, length)),
            scores(
                found_messages,
                found_conversations.take(j as int),
                terms.deep_view(),
                *rank_of,
                scored@,
            ),
        decreases others - j,
    {
        let found = conversations.remove(0);
        let result = score_conversation(found, terms, rank_of);
        scored.push(result);
        j += 1;
    }
    assert(found_conversations.take(others as int) =~= found_conversations);
    scored
}

/// The request for the messages whose content holds `pattern`.
pub open spec fn message_search_request(pattern: Seq<char>) -> Request {
    Request::Query {
        sql: MESSAGE_SEARCH_SQL@,
        params: ParamsView::Texts(seq![pattern]),
        columns: MESSAGE_MATCH_COLUMNS as nat,
        max_rows: MESSAGE_CANDIDATES as nat,
    }
}

/// The request for the conversations whose name or summary holds `pattern`.
pub open spec fn conversation_search_request(pattern: Seq<char>) -> Request {
    Request::Query {
        sql: CONVERSATION_SEARCH_SQL@,
        params: ParamsView::Texts(seq![pattern]),
        columns: CONVERSATION_MATCH_COLUMNS as nat,
        max_rows: CONVERSATION_CANDIDATES as nat,
    }
}

/// The error of a search that the store refused: the words for the step that
/// failed, with `source` for what was searched, then the store's own.
pub open spec fn search_error(source: Seq<char>, failure: FailureModel) -> Seq<char> {
    (match failure.stage {
        Stage::Prepare => "Prepare "@ + source + " error: "@,
        Stage::Bind => "Query "@ + source + " error: "@,
        _ => "Row error: "@,
    }) + failure.detail
}

/// Words the refusal of a search.
pub fn search_error_text(source: &str, failure: &Failure) -> (text: String)
    ensures
        text@ == search_error(source@, failure.deep_view()),
{
    match failure.stage {
        Stage::Prepare => {
            let start = joined("Prepare ", source);
            let prefix = joined(start.as_str(), " error: ");
            joined(prefix.as_str(), failure.detail.as_str())
        },
        Stage::Bind => {
            let start = joined("Query ", source);
            let prefix = joined(start.as_str(), " error: ");
            joined(prefix.as_str(), failure.detail.as_str())
        },
        _ => joined("Row error: ", failure.detail.as_str()),
    }
}

/// What is found in an answer of the store: its rows, each read by
/// `record_of`; an error where the store refused or a row does not fit.
pub open spec fn found_in<V>(
    reply: Reply,
    source: Seq<char>,
    record_of: spec_fn(Seq<SqlValueView>) -> Result<V, nat>,
) -> Result<Seq<V>, Seq<char>> {
    match rows_of(reply) {
        Ok(rows) => match records_of(rows, record_of) {
            Ok(records) => Ok(records),
            Err(index) => Err("Row error: "@ + mismatch(index)),
        },
        Err(failure) => Err(search_error(source, failure)),
    }
}

/// What a search finds: the messages and the conversations.
pub struct Found {
    pub messages: Seq<MessageMatchView>,
    pub conversations: Seq<ConversationMatchView>,
}

/// The script of a search for `pattern`: ask for the messages, then for the
/// conversations. The first refusal, or the first row that does not fit, ends
/// the search with an error.
pub open spec fn search_script(pattern: Seq<char>) -> spec_fn(Seq<Reply>) -> Next<
    Result<Found, Seq<char>>,
> {
    |replies: Seq<Reply>|
        if replies.len() == 0 {
            Next::Ask(message_search_request(pattern))
        } else {
            match found_in(replies[0], "messages"@, message_match_reader()) {
                Err(text) => Next::Return(Err(text)),
                Ok(messages) => if replies.len() == 1 {
                    Next::Ask(conversation_search_request(pattern))
                } else {
                    match found_in(replies[1], "conversations"@, conversation_match_reader()) {
                        Err(text) => Next::Return(Err(text)),
                        Ok(conversations) => Next::Return(Ok(Found { messages, conversations })),
                    }
                },
            }
        }
}

/// What a search returns for what it found: the error, or the first 50 of
/// the scored results in descending order of rank.
pub open spec fn search_outcome<F: Fn(u64, usize) -> u64>(
    found: Result<Found, Seq<char>>,
    terms: Seq<TermView>,
    rank_of: F,
    outcome: Result<Vec<SearchResult>, String>,
) -> bool {
    match found {
        Err(text) => outcome matches Err(said) && said@ == text,
        Ok(found) => outcome matches Ok(results) && exists|scored: Seq<SearchResult>|
            #![auto]
            scores(found.messages, found.conversations, terms, rank_of, scored) && results@
                == ranked(scored, RESULT_LIMIT as int),
    }
}

/// Searches the messages and the summaries of the conversations for `query`
/// and returns the best results, the most relevant first.
pub fn search_content<F: Fn(u64, usize) -> u64>(
    session: &mut Session<'_>,
    query: &str,
    rank_of: &F,
) -> (outcome: Result<Vec<SearchResult>, String>)
    requires
        forall|points: u64, length: usize| call_requires(*rank_of, (points, length)),
    ensures
        is_blank(query@) ==> {
            &&& final(session).journal() == old(session).journal()
            &&& outcome matches Ok(results) && results.len() == 0
        },
        !is_blank(query@) ==> {
            &&& finished(
                search_script(pattern_of(query@)),
                old(session).journal(),
                final(session).journal(),
            )
            &&& search_outcome(
                returned(
                    search_script(pattern_of(query@)),
                    old(session).journal(),
                    final(session).journal(),
                ),
                term_views(terms_of(query@)),
                *rank_of,
                outcome,
            )
        },
        outcome matches Ok(results) ==> results.len() <= RESULT_LIMIT && descending(results@),
{
    proof {
        lemma_no_terms(query@);
    }
    let terms = parse_query(query);
    assert(terms.len() == terms_of(query@).len()) by {
        assert(terms.deep_view().len() == terms.len());
        assert(term_views(terms_of(query@)).len() == terms_of(query@).len());
    }
    if terms.len() == 0 {
        let nothing: Vec<SearchResult> = Vec::new();
        return Ok(nothing);
    }
    let ghost before = session.journal();
    let ghost script = search_script(pattern_of(query@));
    proof {
        lemma_script_start(script, before);
    }
    let lowered = to_lowercase(query);
    let start = joined("%", lowered.as_str());
    let pattern = joined(start.as_str(), "%");
    let params = Params::Texts(vec![pattern]);
    proof {
        assert(params->Texts_0.deep_view() =~= seq![pattern_of(query@)]);
    }
    let answer = session.query(MESSAGE_SEARCH_SQL, &params, MESSAGE_MATCH_COLUMNS, MESSAGE_CANDIDATES);
    proof {
        lemma_script_step(script, before, before, session.journal().last());
    }
    let messages = match answer {
        Err(failure) => {
            return Err(search_error_text("messages", &failure));
        },
        Ok(rows) => match decode_message_matches(&rows) {
            Err(index) => {
                let detail = mismatch_text(index);
                return Err(joined("Row error: ", detail.as_str()));
            },
            Ok(messages) => messages,
        },
    };
    let ghost earlier = session.journal();
    let answer = session.query(
        CONVERSATION_SEARCH_SQL,
        &params,
        CONVERSATION_MATCH_COLUMNS,
        CONVERSATION_CANDIDATES,
    );
    proof {
        lemma_script_step(script, before, earlier, session.journal().last());
    }
    let conversations = match answer {
        Err(failure) => {
            return Err(search_error_text("conversations", &failure));
        },
        Ok(rows) => match decode_conversation_matches(&rows) {
            Err(index) => {
                let detail = mismatch_text(index);
                return Err(joined("Row error: ", detail.as_str()));
            },
            Ok(conversations) => conversations,
        },
    };
    let scored = score_candidates(messages, conversations, &terms, rank_of);
    proof {
        lemma_ranked(scored@, RESULT_LIMIT as int);
    }
    Ok(rank_results(scored, RESULT_LIMIT))
}

} // verus!
