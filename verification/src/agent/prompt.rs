//! The research prompt: the provider-neutral contract that Hermes follows,
//! with a bounded identity digest of the graph that new findings must join.

use vstd::prelude::*;

use crate::agent::secrets::bounded_chars;
use crate::domain::graph_maps::{event_entries, events_get_index, events_len};
use crate::domain::model::{GraphSnapshot, ResearchEvent};
use crate::text::{chars_of, lemma_utf8_len_prefix, lemma_utf8_len_push, string_from_chars, trim, trim_chars, utf8_len};

verus! {

/// The contract's opening: how to work and how to report.
pub const PROMPT_HEAD: &'static str = "Research the question below for an event-graph Canvas. Work only in the supplied\nscratch directory; do not modify application source, user documents, or the saved\nCanvas directly. Report concise, evidence-backed events, source artifacts, and\nrelationships. Emit every mutation on its own line, with no Markdown fence:\nAI_NEWS_EVENT: {\"type\":\"event.upsert\",\"data\":{...}}\nAI_NEWS_EVENT: {\"type\":\"bridge.upsert\",\"data\":{...}}\n\nEvent keys are exactly id, title, date, color, summary, sourceLabel, artifacts,\nurl. Every artifact uses text, source, url. Every bridge uses from, to, label;\nits endpoints must exactly match an existing ID listed below or an event ID you\nalready emitted. Prefer integer ARGB colors. A URL may occur only once across all\nnew event and artifact URLs. If one source supports several subfindings, combine\nthem or find distinct primary URLs. Connect every semantically related new event;\nemit an isolated singleton only when it is truly unrelated and explain why in a\nsession.message. You may emit sparse voice.note orientation under 110 characters.\nFinish with AI_NEWS_EVENT: {\"type\":\"session.done\",\"data\":{\"message\":\"...\"}}.\n\n";

/// The source policy that every research run follows.
pub const SOURCE_POLICY: &'static str = "Use direct primary sources whenever possible. Use the available\nsemantic web search, a configured SearXNG endpoint, and Browse.sh as complementary\ndiscovery/retrieval surfaces when external research needs them. Compare their\ncandidate sets instead of letting one dominate. Inspect unresponsive search\nengines and retry weak results with source-qualified queries, broader categories,\nor an appropriate time range. Use browser automation for JavaScript-heavy,\ndynamically rendered, search-gated, or thinly extracted candidates. Treat search\nsnippets and extraction output as leads, not final evidence. Prefer official\ndocumentation, releases, papers, filings, standards, repositories, and original\nannouncements for final claims. Never expose credentials in output.";

/// The heading of the graph digest.
pub const DIGEST_HEAD: &'static str = "\n\nExisting Canvas identity digest (reference only; never rewrite it):\n";

/// The heading of the question.
pub const QUESTION_HEAD: &'static str = "\nQuestion: ";

/// The digest line that stands for the events left out.
pub const DIGEST_OMITTED: &'static str = "- Additional saved events omitted from the prompt digest.\n";

/// The digest of an empty graph.
pub const DIGEST_EMPTY: &'static str = "- The Canvas is empty; form a connected new cluster.\n";

/// What `format!("{:?}", s)` makes of `s`: the text quoted, with quotes,
/// backslashes and special characters escaped.
pub uninterp spec fn debug_text(s: Seq<char>) -> Seq<char>;

/// `format!("{:?}", s)`.
#[verifier::external_body]
fn debug_quoted(s: &str) -> (r: String)
    ensures
        r@ == debug_text(s@),
{
    format!("{:?}", s)
}

/// An event's primary URL, or a stand-in when it has none.
pub open spec fn primary_of(event: ResearchEvent) -> Seq<char> {
    match event.url {
        Some(u) => u@,
        None => "no-primary-url"@,
    }
}

/// An event's digest line: its id, title, date and primary URL, each
/// bounded and quoted.
pub open spec fn digest_line(event: ResearchEvent) -> Seq<char> {
    "- id="@ + debug_text(bounded_chars(event.id@, 256)) + "; title="@ + debug_text(
        bounded_chars(event.title@, 240),
    ) + "; date="@ + debug_text(bounded_chars(event.date@, 80)) + "; primary="@ + debug_text(
        bounded_chars(primary_of(event), 1024),
    ) + "\n"@
}

/// The digest of `events` after `acc`: a line per event while the digest
/// is under 16000 bytes; once it reaches that, one line noting the events
/// left out.
pub open spec fn digest(events: Seq<(crate::domain::model::EventId, ResearchEvent)>, acc: Seq<char>) -> Seq<char>
    decreases events.len(),
{
    if events.len() == 0 {
        acc
    } else if utf8_len(acc) >= 16000 {
        acc + DIGEST_OMITTED@
    } else {
        digest(events.drop_first(), acc + digest_line(events[0].1))
    }
}

/// The research prompt for `question` over a graph whose events are `events`.
pub open spec fn research_prompt(
    question: Seq<char>,
    events: Seq<(crate::domain::model::EventId, ResearchEvent)>,
) -> Seq<char> {
    let context = digest(events, Seq::empty());
    let context = if context.len() == 0 {
        DIGEST_EMPTY@
    } else {
        context
    };
    PROMPT_HEAD@ + SOURCE_POLICY@ + DIGEST_HEAD@ + context + QUESTION_HEAD@ + bounded_chars(
        trim(question),
        4096,
    )
}

/// `s` cut to `limit` characters, with an ellipsis when cut.
fn bounded_text(s: &str, limit: usize) -> (r: String)
    ensures
        r@ == bounded_chars(s@, limit as nat),
{
    let chars = chars_of(s);
    if chars.len() <= limit {
        return s.to_owned();
    }
    let mut out: Vec<char> = Vec::new();
    let mut i: usize = 0;
    while i < limit
        invariant
            i <= limit < chars@.len(),
            out@ == chars@.take(i as int),
        decreases limit - i,
    {
        out.push(chars[i]);
        i = i + 1;
        assert(out@ =~= chars@.take(i as int));
    }
    out.push('…');
    string_from_chars(&out)
}

/// Appends `text` to `dst`, keeping `bytes` equal to the UTF-8 length of
/// `dst` capped at 16000.
fn append_counted(dst: &mut Vec<char>, bytes: &mut usize, text: &str)
    requires
        *old(bytes) == if utf8_len(old(dst)@) < 16000 {
            utf8_len(old(dst)@)
        } else {
            16000
        },
    ensures
        final(dst)@ == old(dst)@ + text@,
        *final(bytes) == if utf8_len(final(dst)@) < 16000 {
            utf8_len(final(dst)@)
        } else {
            16000
        },
{
    let chars = chars_of(text);
    let ghost start = dst@;
    let mut i: usize = 0;
    while i < chars.len()
        invariant
            i <= chars@.len(),
            dst@ == start + chars@.take(i as int),
            *bytes == if utf8_len(dst@) < 16000 {
                utf8_len(dst@)
            } else {
                16000
            },
        decreases chars@.len() - i,
    {
        let c = chars[i];
        proof {
            lemma_utf8_len_push(dst@, c);
        }
        let u = c as u32;
        let w: usize = if u < 0x80 {
            1
        } else if u < 0x800 {
            2
        } else if u < 0x10000 {
            3
        } else {
            4
        };
        dst.push(c);
        if *bytes < 16000 {
            *bytes = if 16000 - *bytes <= w {
                16000
            } else {
                *bytes + w
            };
        }
        i = i + 1;
        assert(dst@ =~= start + chars@.take(i as int));
    }
    assert(chars@.take(chars@.len() as int) == chars@);
}

/// Builds the research prompt for `question` over `graph`.
pub fn build_research_prompt(question: &str, graph: &GraphSnapshot) -> (r: String)
    ensures
        r@ == research_prompt(question@, event_entries(graph.events)),
{
    let ghost events = event_entries(graph.events);
    let count = events_len(&graph.events);
    let mut context: Vec<char> = Vec::new();
    let mut bytes: usize = 0;
    let mut i: usize = 0;
    let mut omitted = false;
    assert(events.skip(0) == events);
    while i < count && !omitted
        invariant
            count == events.len(),
            events == event_entries(graph.events),
            i <= count,
            bytes == if utf8_len(context@) < 16000 {
                utf8_len(context@)
            } else {
                16000
            },
            !omitted ==> digest(events, Seq::empty()) == digest(events.skip(i as int), context@),
            omitted ==> digest(events, Seq::empty()) == context@,
        decreases count - i + (if omitted {
            0int
        } else {
            1int
        }),
    {
        assert(events.skip(i as int).drop_first() == events.skip(i as int + 1));
        if bytes >= 16000 {
            append_counted(&mut context, &mut bytes, DIGEST_OMITTED);
            omitted = true;
        } else {
            let (_, event) = match events_get_index(&graph.events, i) {
                Some(entry) => entry,
                None => {
                    return String::new();
                },
            };
            assert(events.skip(i as int)[0].1 == *event);
            let primary: &str = match &event.url {
                Some(u) => u.as_str(),
                None => "no-primary-url",
            };
            assert(primary@ == primary_of(*event));
            let ghost before = context@;
            let id_text = debug_quoted(bounded_text(event.id.0.as_str(), 256).as_str());
            let title_text = debug_quoted(bounded_text(event.title.as_str(), 240).as_str());
            let date_text = debug_quoted(bounded_text(event.date.as_str(), 80).as_str());
            let primary_text = debug_quoted(bounded_text(primary, 1024).as_str());
            append_counted(&mut context, &mut bytes, "- id=");
            append_counted(&mut context, &mut bytes, id_text.as_str());
            append_counted(&mut context, &mut bytes, "; title=");
            append_counted(&mut context, &mut bytes, title_text.as_str());
            append_counted(&mut context, &mut bytes, "; date=");
            append_counted(&mut context, &mut bytes, date_text.as_str());
            append_counted(&mut context, &mut bytes, "; primary=");
            append_counted(&mut context, &mut bytes, primary_text.as_str());
            append_counted(&mut context, &mut bytes, "\n");
            assert(event.id@ == event.id.0@);
            assert(context@ =~= before + digest_line(*event));
            i = i + 1;
        }
    }
    proof {
        if !omitted {
            assert(events.skip(i as int) == Seq::<(crate::domain::model::EventId, ResearchEvent)>::empty());
        }
    }
    let mut prompt: Vec<char> = Vec::new();
    let mut total: usize = 0;
    append_counted(&mut prompt, &mut total, PROMPT_HEAD);
    append_counted(&mut prompt, &mut total, SOURCE_POLICY);
    append_counted(&mut prompt, &mut total, DIGEST_HEAD);
    if context.len() == 0 {
        append_counted(&mut prompt, &mut total, DIGEST_EMPTY);
    } else {
        let text = string_from_chars(&context);
        append_counted(&mut prompt, &mut total, text.as_str());
    }
    append_counted(&mut prompt, &mut total, QUESTION_HEAD);
    let question = string_from_chars(&trim_chars(&chars_of(question)));
    append_counted(&mut prompt, &mut total, bounded_text(question.as_str(), 4096).as_str());
    string_from_chars(&prompt)
}


/// The digest lines of every event, in order.
pub open spec fn digest_lines(events: Seq<(crate::domain::model::EventId, ResearchEvent)>) -> Seq<char>
    decreases events.len(),
{
    if events.len() == 0 {
        Seq::empty()
    } else {
        digest_line(events[0].1) + digest_lines(events.drop_first())
    }
}

proof fn lemma_lines_take_step(events: Seq<(crate::domain::model::EventId, ResearchEvent)>, j: int)
    requires
        0 <= j < events.len(),
    ensures
        digest_lines(events.take(j + 1)) == digest_line(events[0].1) + digest_lines(events.drop_first().take(j)),
{
    assert(events.take(j + 1).drop_first() =~= events.drop_first().take(j));
    assert(events.take(j + 1)[0] == events[0]);
}

proof fn lemma_lines_split(events: Seq<(crate::domain::model::EventId, ResearchEvent)>, j: int)
    requires
        0 <= j <= events.len(),
    ensures
        digest_lines(events) == digest_lines(events.take(j)) + digest_lines(events.skip(j)),
    decreases events.len(),
{
    if j == 0 {
        assert(events.take(0) =~= Seq::<(crate::domain::model::EventId, ResearchEvent)>::empty());
        assert(events.skip(0) =~= events);
        assert(digest_lines(events.take(0)) == Seq::<char>::empty());
        assert(Seq::<char>::empty() + digest_lines(events) =~= digest_lines(events));
    } else {
        lemma_lines_split(events.drop_first(), j - 1);
        lemma_lines_take_step(events, j - 1);
        assert(events.drop_first().skip(j - 1) =~= events.skip(j));
    }
}

/// What a digest is, starting after `acc`: either every event's line, when
/// `acc` and the lines before each event stay under 16000 bytes; or the
/// lines of the first `k` events and the omission line, where the lines up
/// to event `k` reach 16000 bytes and those before each earlier event do not.
pub open spec fn digest_shape(events: Seq<(crate::domain::model::EventId, ResearchEvent)>, acc: Seq<char>) -> bool {
    ||| {
        &&& digest(events, acc) == acc + digest_lines(events)
        &&& forall|j: int| 0 <= j < events.len() ==> utf8_len(acc + #[trigger] digest_lines(events.take(j))) < 16000
    }
    ||| exists|k: int|
        {
            &&& 0 <= k < events.len()
            &&& digest(events, acc) == acc + digest_lines(events.take(k)) + DIGEST_OMITTED@
            &&& utf8_len(acc + #[trigger] digest_lines(events.take(k))) >= 16000
            &&& forall|j: int| 0 <= j < k ==> utf8_len(acc + #[trigger] digest_lines(events.take(j))) < 16000
        }
}

proof fn lemma_digest_shape(events: Seq<(crate::domain::model::EventId, ResearchEvent)>, acc: Seq<char>)
    ensures
        digest_shape(events, acc),
    decreases events.len(),
{
    let e = Seq::<(crate::domain::model::EventId, ResearchEvent)>::empty();
    assert(events.take(0) =~= e);
    assert(digest_lines(e) == Seq::<char>::empty());
    assert(acc + Seq::<char>::empty() =~= acc);
    if events.len() == 0 {
    } else if utf8_len(acc) >= 16000 {
        assert(utf8_len(acc + digest_lines(events.take(0))) >= 16000);
        assert(digest(events, acc) == acc + digest_lines(events.take(0)) + DIGEST_OMITTED@);
    } else {
        let line = digest_line(events[0].1);
        let rest = events.drop_first();
        lemma_digest_shape(rest, acc + line);
        assert forall|j: int| 0 <= j < rest.len() + 1 implies acc + digest_lines(events.take(j)) == (if j == 0 {
            acc
        } else {
            (acc + line) + digest_lines(rest.take(j - 1))
        }) by {
            if j > 0 {
                lemma_lines_take_step(events, j - 1);
                assert(acc + (line + digest_lines(rest.take(j - 1))) =~= (acc + line) + digest_lines(rest.take(j - 1)));
            }
        }
        if digest(rest, acc + line) == (acc + line) + digest_lines(rest) && forall|j: int|
            0 <= j < rest.len() ==> utf8_len((acc + line) + #[trigger] digest_lines(rest.take(j))) < 16000 {
            assert(acc + digest_lines(events) =~= (acc + line) + digest_lines(rest));
            assert forall|j: int| 0 <= j < events.len() implies utf8_len(acc + #[trigger] digest_lines(events.take(j)))
                < 16000 by {
                if j > 0 {
                    assert(utf8_len((acc + line) + digest_lines(rest.take(j - 1))) < 16000);
                }
            }
        } else {
            let k = choose|k: int|
                {
                    &&& 0 <= k < rest.len()
                    &&& digest(rest, acc + line) == (acc + line) + digest_lines(rest.take(k)) + DIGEST_OMITTED@
                    &&& utf8_len((acc + line) + #[trigger] digest_lines(rest.take(k))) >= 16000
                    &&& forall|j: int| 0 <= j < k ==> utf8_len((acc + line) + #[trigger] digest_lines(rest.take(j))) < 16000
                };
            assert(acc + digest_lines(events.take(k + 1)) == (acc + line) + digest_lines(rest.take(k)));
            assert forall|j: int| 0 <= j < k + 1 implies utf8_len(acc + #[trigger] digest_lines(events.take(j)))
                < 16000 by {
                if j > 0 {
                    assert(utf8_len((acc + line) + digest_lines(rest.take(j - 1))) < 16000);
                }
            }
            assert(0 <= k + 1 < events.len());
            assert(utf8_len(acc + digest_lines(events.take(k + 1))) >= 16000);
        }
    }
}

/// Digest law: the digest of a graph lists every saved finding, with no
/// omission line, whenever all their lines together stay under 16000
/// bytes; otherwise it lists the findings in order until their lines reach
/// 16000 bytes, and only then notes that the rest were left out.
pub proof fn law_digest_omits_only_past_the_limit(events: Seq<(crate::domain::model::EventId, ResearchEvent)>)
    ensures
        utf8_len(digest_lines(events)) < 16000 ==> digest(events, Seq::empty()) == digest_lines(events),
        digest(events, Seq::empty()) == digest_lines(events) || exists|k: int|
            {
                &&& 0 <= k < events.len()
                &&& digest(events, Seq::empty()) == digest_lines(events.take(k)) + DIGEST_OMITTED@
                &&& utf8_len(#[trigger] digest_lines(events.take(k))) >= 16000
                &&& forall|j: int| 0 <= j < k ==> utf8_len(#[trigger] digest_lines(events.take(j))) < 16000
            },
{
    let acc = Seq::<char>::empty();
    lemma_digest_shape(events, acc);
    assert forall|s: Seq<char>| acc + s == s by {
        assert(acc + s =~= s);
    }
    if utf8_len(digest_lines(events)) < 16000 {
        if digest(events, acc) != acc + digest_lines(events) {
            let k = choose|k: int|
                {
                    &&& 0 <= k < events.len()
                    &&& digest(events, acc) == acc + digest_lines(events.take(k)) + DIGEST_OMITTED@
                    &&& utf8_len(acc + #[trigger] digest_lines(events.take(k))) >= 16000
                    &&& forall|j: int| 0 <= j < k ==> utf8_len(acc + #[trigger] digest_lines(events.take(j))) < 16000
                };
            lemma_lines_split(events, k);
            lemma_utf8_len_prefix(digest_lines(events), digest_lines(events.take(k)).len() as int);
            assert(digest_lines(events).take(digest_lines(events.take(k)).len() as int) =~= digest_lines(events.take(k)));
            assert(false);
        }
    }
    if digest(events, acc) != acc + digest_lines(events) {
        let k = choose|k: int|
            {
                &&& 0 <= k < events.len()
                &&& digest(events, acc) == acc + digest_lines(events.take(k)) + DIGEST_OMITTED@
                &&& utf8_len(acc + #[trigger] digest_lines(events.take(k))) >= 16000
                &&& forall|j: int| 0 <= j < k ==> utf8_len(acc + #[trigger] digest_lines(events.take(j))) < 16000
            };
        assert(digest(events, Seq::empty()) == digest_lines(events.take(k)) + DIGEST_OMITTED@);
        assert forall|j: int| 0 <= j < k implies utf8_len(#[trigger] digest_lines(events.take(j))) < 16000 by {
            assert(utf8_len(acc + digest_lines(events.take(j))) < 16000);
        }
    }
}

} // verus!
