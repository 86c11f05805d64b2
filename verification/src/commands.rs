//! Turning what a user types into the packet the client sends.
use vstd::prelude::*;
use vstd::string::*;
use crate::protocol::{ClientPacket, PacketView};
use crate::text::{join_strings_from, join_with, lemma_join_split, lemma_split_on_no_sep, lemma_split_on_nonempty, split_on, split_string, starts_with, str_eq, str_starts_with, substring};

verus! {

/// What `raw_msg_to_packet` sends for `raw`: a line that does not start with
/// "/" is a public message; "/pm <user> <words...>" is a private message to
/// `<user>` of the remaining words joined by spaces; any other command
/// (among them "/exit") disconnects.
pub open spec fn raw_msg_packet(raw: Seq<char>) -> PacketView {
    if starts_with(raw, "/"@) {
        let parts = split_on(raw, ' ');
        if starts_with(parts[0], "/"@) && parts[0].drop_first() == "pm"@ {
            PacketView::PrivateMessage {
                to: parts[1],
                contents: join_with(parts.subrange(2, parts.len() as int), " "@),
            }
        } else {
            PacketView::Disconnect
        }
    } else {
        PacketView::PublicMessage { contents: raw }
    }
}

/// The input on which `raw_msg_to_packet` has no user name to take: the
/// command "/pm" with nothing after it.
pub open spec fn raw_msg_lacks_user(raw: Seq<char>) -> bool {
    starts_with(raw, "/"@) && starts_with(split_on(raw, ' ')[0], "/"@) && split_on(raw, ' ')[0].drop_first()
        == "pm"@ && split_on(raw, ' ').len() < 2
}

/// Converts a line typed in the chat into a packet.
pub fn raw_msg_to_packet(raw_msg: String) -> (res: ClientPacket)
    requires
        !raw_msg_lacks_user(raw_msg@),
    ensures
        res@ == raw_msg_packet(raw_msg@),
{
    proof {
        reveal_strlit("/");
        reveal_strlit("pm");
        reveal_strlit(" ");
        lemma_split_on_nonempty(raw_msg@, ' ');
    }
    if str_starts_with(raw_msg.as_str(), "/") {
        let split = split_string(raw_msg.as_str(), ' ');
        let first = &split[0];
        let n = first.as_str().unicode_len();
        proof {
            assert(split@[0]@ == split_on(raw_msg@, ' ')[0]);
        }
        if str_starts_with(first.as_str(), "/") {
            let cmd = substring(first.as_str(), 1, n);
            assert(cmd@ =~= split_on(raw_msg@, ' ')[0].drop_first());
            if str_eq(cmd.as_str(), "pm") {
                let user = split[1].clone();
                let message = join_strings_from(split.as_slice(), 2, " ");
                proof {
                    let views = split@.map_values(|p: String| p@);
                    assert(views =~= split_on(raw_msg@, ' '));
                }
                return ClientPacket::PrivateMessage { to: user, contents: message };
            }
        }
        return ClientPacket::Disconnect;
    }
    ClientPacket::PublicMessage { contents: raw_msg }
}

/// What the client sends for a line typed in the chat: a line starting with
/// "/pm" is a private message to its second space-separated word, of the
/// words after it joined by spaces; any other line is a public message.
pub open spec fn chat_line_packet(contents: Seq<char>) -> PacketView {
    if starts_with(contents, "/pm"@) {
        let parts = split_on(contents, ' ');
        PacketView::PrivateMessage {
            to: parts[1],
            contents: join_with(parts.subrange(2, parts.len() as int), " "@),
        }
    } else {
        PacketView::PublicMessage { contents }
    }
}

/// The input on which the client cannot split off the words after the
/// user: a "/pm" line without a space.
pub open spec fn chat_line_lacks_user(contents: Seq<char>) -> bool {
    starts_with(contents, "/pm"@) && split_on(contents, ' ').len() < 2
}

/// The packet for a line typed in the chat.
pub fn chat_line_to_packet(contents: String) -> (res: ClientPacket)
    requires
        !chat_line_lacks_user(contents@),
    ensures
        res@ == chat_line_packet(contents@),
{
    if str_starts_with(contents.as_str(), "/pm") {
        let split = split_string(contents.as_str(), ' ');
        let to_username = split[1].clone();
        let rest = join_strings_from(split.as_slice(), 2, " ");
        proof {
            let views = split@.map_values(|p: String| p@);
            assert(views =~= split_on(contents@, ' '));
        }
        return ClientPacket::PrivateMessage { to: to_username, contents: rest };
    }
    ClientPacket::PublicMessage { contents }
}

/// A line that is not a command reaches the server as typed.
pub proof fn lemma_plain_line_is_public(raw: Seq<char>)
    requires
        !starts_with(raw, "/"@),
    ensures
        raw_msg_packet(raw) == (PacketView::PublicMessage { contents: raw }),
{
}

/// A private message keeps the words after the user as typed: the user, a
/// space and the message, after "/pm ", are the rest of the line.
pub proof fn lemma_private_message_text(raw: Seq<char>)
    requires
        starts_with(raw, "/"@),
        split_on(raw, ' ').len() >= 3,
        starts_with(split_on(raw, ' ')[0], "/"@),
        split_on(raw, ' ')[0].drop_first() == "pm"@,
    ensures
        raw_msg_packet(raw) matches PacketView::PrivateMessage { to, contents } && raw == split_on(raw, ' ')[0] + " "@ + to + " "@ + contents,
{
    reveal_strlit(" ");
    let parts = split_on(raw, ' ');
    lemma_join_split(raw, ' ');
    lemma_join_prefix2(parts, seq![' ']);
    assert(" "@ =~= seq![' ']);
    let rest = join_with(parts.subrange(2, parts.len() as int), " "@);
    assert(raw_msg_packet(raw) == (PacketView::PrivateMessage { to: parts[1], contents: rest }));
    assert(raw == parts[0] + " "@ + parts[1] + " "@ + rest);
}

/// A private message gives the typed line back: the recipient holds no
/// space, and the line is "/pm <to> <contents>", or "/pm <to>" when the
/// message is empty.
pub proof fn lemma_private_message_round_trip(raw: Seq<char>)
    requires
        !raw_msg_lacks_user(raw),
        raw_msg_packet(raw) is PrivateMessage,
    ensures
        raw_msg_packet(raw) matches PacketView::PrivateMessage { to, contents } && !to.contains(' ') && (
        raw == "/pm "@ + to + " "@ + contents || (contents.len() == 0 && raw == "/pm "@ + to)),
{
    reveal_strlit("/");
    reveal_strlit("pm");
    reveal_strlit("/pm ");
    reveal_strlit(" ");
    let parts = split_on(raw, ' ');
    lemma_split_on_nonempty(raw, ' ');
    lemma_split_on_no_sep(raw, ' ');
    assert(starts_with(raw, "/"@));
    assert(starts_with(parts[0], "/"@) && parts[0].drop_first() == "pm"@);
    assert(parts[0] =~= "/pm"@) by {
        reveal_strlit("/pm");
        reveal_strlit("/");
        reveal_strlit("pm");
        assert("/"@[0] == '/');
        assert("pm"@.len() == 2);
        assert(parts[0].subrange(0, 1)[0] == parts[0][0]);
        assert(parts[0][0] == '/');
        assert(parts[0].drop_first().len() == 2);
        assert(parts[0].len() == 3);
        assert(parts[0][1] == parts[0].drop_first()[0]);
        assert(parts[0][2] == parts[0].drop_first()[1]);
    }
    assert(!parts[1].contains(' '));
    let rest = join_with(parts.subrange(2, parts.len() as int), " "@);
    assert(raw_msg_packet(raw) == (PacketView::PrivateMessage { to: parts[1], contents: rest }));
    reveal_strlit("/pm");
    if parts.len() >= 3 {
        lemma_private_message_text(raw);
        assert(raw == parts[0] + " "@ + parts[1] + " "@ + rest);
        assert("/pm"@ + " "@ =~= "/pm "@);
        assert(raw =~= "/pm "@ + parts[1] + " "@ + rest);
    } else {
        assert(parts.len() == 2);
        assert(parts.subrange(2, 2) =~= Seq::<Seq<char>>::empty());
        assert(rest.len() == 0);
        lemma_join_split(raw, ' ');
        assert(parts.drop_last() =~= seq![parts[0]]);
        assert(join_with(parts.drop_last(), seq![' ']) == parts[0]);
        assert(raw == parts[0] + seq![' '] + parts[1]);
        assert(raw =~= "/pm "@ + parts[1]);
    }
}

/// A "/pm" line typed in the chat becomes a private message that gives the
/// line back: the recipient holds no space, and the line is its command
/// word, a space, the recipient, a space and the contents (every word after
/// the recipient), or just the command word, a space and the recipient when
/// the contents are empty.
pub proof fn lemma_chat_line_round_trip(line: Seq<char>)
    requires
        starts_with(line, "/pm"@),
        !chat_line_lacks_user(line),
    ensures
        chat_line_packet(line) matches PacketView::PrivateMessage { to, contents } && !to.contains(' ') && (
        line == split_on(line, ' ')[0] + " "@ + to + " "@ + contents || (contents.len() == 0 && line
            == split_on(line, ' ')[0] + " "@ + to)),
{
    reveal_strlit(" ");
    let parts = split_on(line, ' ');
    lemma_split_on_nonempty(line, ' ');
    lemma_split_on_no_sep(line, ' ');
    assert(!parts[1].contains(' '));
    let rest = join_with(parts.subrange(2, parts.len() as int), " "@);
    assert(chat_line_packet(line) == (PacketView::PrivateMessage { to: parts[1], contents: rest }));
    lemma_join_split(line, ' ');
    assert(" "@ =~= seq![' ']);
    if parts.len() >= 3 {
        lemma_join_prefix2(parts, seq![' ']);
        assert(line == parts[0] + " "@ + parts[1] + " "@ + rest);
    } else {
        assert(parts.len() == 2);
        assert(parts.subrange(2, 2) =~= Seq::<Seq<char>>::empty());
        assert(rest.len() == 0);
        assert(parts.drop_last() =~= seq![parts[0]]);
        assert(join_with(parts.drop_last(), seq![' ']) == parts[0]);
        assert(line == parts[0] + seq![' '] + parts[1]);
    }
}

/// Joining at least three pieces is the first two, then the join of the
/// rest.
proof fn lemma_join_prefix2(parts: Seq<Seq<char>>, sep: Seq<char>)
    requires
        parts.len() >= 3,
    ensures
        join_with(parts, sep) == parts[0] + sep + parts[1] + sep + join_with(parts.subrange(2, parts.len() as int), sep),
    decreases parts.len(),
{
    if parts.len() == 3 {
        let p2 = parts.drop_last();
        assert(p2.drop_last() =~= seq![parts[0]]);
        assert(join_with(p2.drop_last(), sep) == parts[0]);
        assert(join_with(p2, sep) == parts[0] + sep + parts[1]);
        let rest = parts.subrange(2, 3);
        assert(rest =~= seq![parts[2]]);
        assert(join_with(rest, sep) == parts[2]);
        assert(join_with(parts, sep) =~= parts[0] + sep + parts[1] + sep + parts[2]);
    } else {
        lemma_join_prefix2(parts.drop_last(), sep);
        let rest = parts.subrange(2, parts.len() as int);
        assert(rest.drop_last() =~= parts.drop_last().subrange(2, parts.len() - 1));
        assert(rest.last() == parts.last());
        assert(join_with(parts, sep) =~= parts[0] + sep + parts[1] + sep + join_with(rest, sep));
    }
}

} // verus!
