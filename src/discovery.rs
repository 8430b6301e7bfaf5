//! Sessions found among the engine's persisted transcripts.
use vstd::prelude::*;
use crate::events::opt_view;
use crate::records::{ContentItem, StreamRecord, UserContent};
use crate::text::{str_eq, trim, trim_of};

verus! {

/// A session found on disk.
#[derive(Clone, Debug, PartialEq, Eq)]
pub struct DiscoveredSession {
    pub id: String,
    pub working_directory: String,
    pub transcript_path: String,
    pub modified_at: String,
    pub first_message: Option<String>,
}

pub open spec fn decoded_char(c: char) -> char {
    if c == '-' {
        '/'
    } else {
        c
    }
}

/// The working directory that a project directory's escaped name stands for:
/// each `-` was a `/`.
pub fn decode_dir_name(name: &str) -> (r: String)
    ensures
        r@ == name@.map_values(|c: char| decoded_char(c)),
{
    let n = name.unicode_len();
    let mut out = String::new();
    let mut i: usize = 0;
    while i < n
        invariant
            n == name@.len(),
            i <= n,
            out@ == name@.take(i as int).map_values(|c: char| decoded_char(c)),
        decreases n - i,
    {
        let c = name.get_char(i);
        if c == '-' {
            proof {
                reveal_strlit("/");
            }
            out.append("/");
        } else {
            out.append(name.substring_char(i, i + 1));
        }
        assert(out@ =~= name@.take(i + 1).map_values(|c: char| decoded_char(c)));
        i = i + 1;
    }
    assert(name@.take(n as int) =~= name@);
    out
}

/// At most the first hundred characters.
pub open spec fn preview(t: Seq<char>) -> Seq<char> {
    if t.len() <= 100 {
        t
    } else {
        t.subrange(0, 100)
    }
}

/// The first text item of a list whose trimmed text is not empty, previewed.
pub open spec fn first_text(items: Seq<ContentItem>) -> Option<Seq<char>>
    decreases items.len(),
{
    if items.len() == 0 {
        None
    } else {
        match items[0] {
            ContentItem::Text { text: Some(t) } => if trim_of(t@).len() > 0 {
                Some(preview(trim_of(t@)))
            } else {
                first_text(items.drop_first())
            },
            _ => first_text(items.drop_first()),
        }
    }
}

/// What a record offers as a session's first message.
pub open spec fn record_text(r: StreamRecord) -> Option<Seq<char>> {
    match r {
        StreamRecord::User { content: UserContent::Items(items), .. } => first_text(items@),
        StreamRecord::User { content: UserContent::Text(s), .. } => if trim_of(s@).len() > 0 {
            Some(preview(trim_of(s@)))
        } else {
            None
        },
        _ => None,
    }
}

/// The first user text of a transcript, for display.
pub open spec fn first_message_spec(rs: Seq<StreamRecord>) -> Option<Seq<char>>
    decreases rs.len(),
{
    if rs.len() == 0 {
        None
    } else if record_text(rs[0]) is Some {
        record_text(rs[0])
    } else {
        first_message_spec(rs.drop_first())
    }
}

fn preview_of(t: String) -> (r: String)
    ensures
        r@ == preview(t@),
{
    let n = t.as_str().unicode_len();
    if n <= 100 {
        t
    } else {
        owned_sub(&t, 100)
    }
}

fn owned_sub(t: &String, n: usize) -> (r: String)
    requires
        n <= t@.len(),
    ensures
        r@ == t@.subrange(0, n as int),
{
    let s = t.as_str().substring_char(0, n);
    s.to_owned()
}

fn record_first_text(r: &StreamRecord) -> (o: Option<String>)
    ensures
        opt_view(o) == record_text(*r),
{
    match r {
        StreamRecord::User { content: UserContent::Items(items), .. } => {
            let mut i: usize = 0;
            assert(items@.skip(0) =~= items@);
            while i < items.len()
                invariant
                    i <= items@.len(),
                    first_text(items@) == first_text(items@.skip(i as int)),
                    record_text(*r) == first_text(items@),
                decreases items@.len() - i,
            {
                assert(items@.skip(i as int)[0] == items@[i as int]);
                assert(items@.skip(i as int).drop_first() =~= items@.skip(i + 1));
                if let ContentItem::Text { text: Some(t) } = &items[i] {
                    let tr = trim(t.as_str());
                    if tr.as_str().unicode_len() > 0 {
                        assert(items@.skip(i as int).len() > 0);
                        assert(items@.skip(i as int)[0] == ContentItem::Text { text: Some(*t) });
                        return Some(preview_of(tr));
                    }
                }
                i = i + 1;
            }
            None
        },
        StreamRecord::User { content: UserContent::Text(s), .. } => {
            let tr = trim(s.as_str());
            if tr.as_str().unicode_len() > 0 {
                Some(preview_of(tr))
            } else {
                None
            }
        },
        _ => None,
    }
}

/// The first user text of a transcript, trimmed and cut to a hundred
/// characters, for listing sessions.
pub fn extract_first_message(records: &Vec<StreamRecord>) -> (r: Option<String>)
    ensures
        opt_view(r) == first_message_spec(records@),
{
    let mut i: usize = 0;
    assert(records@.skip(0) =~= records@);
    while i < records.len()
        invariant
            i <= records@.len(),
            first_message_spec(records@) == first_message_spec(records@.skip(i as int)),
        decreases records@.len() - i,
    {
        assert(records@.skip(i as int)[0] == records@[i as int]);
        assert(records@.skip(i as int).drop_first() =~= records@.skip(i + 1));
        let t = record_first_text(&records[i]);
        if t.is_some() {
            return t;
        }
        i = i + 1;
    }
    None
}

/// The sessions of one working directory, in the given order.
pub fn list_sessions_for_directory(sessions: Vec<DiscoveredSession>, working_directory: &str) -> (r: Vec<
    DiscoveredSession,
>)
    ensures
        r@ == sessions@.filter(|s: DiscoveredSession| s.working_directory@ == working_directory@),
{
    let mut out: Vec<DiscoveredSession> = Vec::new();
    let mut rest = sessions;
    let ghost all = rest@;
    let mut i: usize = 0;
    let n = rest.len();
    while i < n
        invariant
            n == all.len(),
            i <= n,
            rest@ == all.subrange(i as int, n as int),
            out@ == all.take(i as int).filter(|s: DiscoveredSession| s.working_directory@ == working_directory@),
        decreases n - i,
    {
        let s = rest.remove(0);
        assert(s == all[i as int]);
        reveal(Seq::filter);
        assert(all.take(i + 1).drop_last() =~= all.take(i as int));
        assert(all.take(i + 1).last() == all[i as int]);
        if str_eq(s.working_directory.as_str(), working_directory) {
            out.push(s);
        }
        assert(rest@ =~= all.subrange(i + 1, n as int));
        i = i + 1;
    }
    assert(all.take(n as int) =~= all);
    out
}

} // verus!
