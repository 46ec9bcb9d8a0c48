//! The common types for messages, including message encoding and decoding.
//!
//! A message body is a whitespace-delimited sequence of tokens. A token
//! wrapped in angle brackets is a mention: `<@&ID>` mentions a role,
//! `<@ID>` a user, `<#ID>` a channel, and `<t:UNIXSECONDS>` a moment in
//! time. Anything else — and any bracketed token whose prefix is
//! unknown or whose payload does not parse — stays literal text.

use vstd::prelude::*;

use crate::channel::ChannelId;
use crate::decimal;
use crate::role::RoleId;
use crate::user::UserId;

verus! {

/// Represents a block of message content.
#[derive(Clone, Debug)]
pub enum MessageBlock {
    User(UserId),
    Channel(ChannelId),
    Role(RoleId),
    Timestamp(i64),
    Text(String),
}

/// The mathematical shape of one decoded message block.
pub enum BlockModel {
    User(u64),
    Channel(u64),
    Role(u64),
    Timestamp(i64),
    Text(Seq<char>),
}

impl View for MessageBlock {
    type V = BlockModel;

    open spec fn view(&self) -> BlockModel {
        match self {
            MessageBlock::User(id) => BlockModel::User(id.0),
            MessageBlock::Channel(id) => BlockModel::Channel(id.0),
            MessageBlock::Role(id) => BlockModel::Role(id.0),
            MessageBlock::Timestamp(t) => BlockModel::Timestamp(*t),
            MessageBlock::Text(s) => BlockModel::Text(s@),
        }
    }
}

impl PartialEq for MessageBlock {
    /// Two blocks are equal when they are the same kind of block and
    /// carry the same identifier, timestamp or text.
    fn eq(&self, other: &Self) -> (r: bool) {
        match self {
            MessageBlock::User(a) => match other {
                MessageBlock::User(b) => a.0 == b.0,
                _ => false,
            },
            MessageBlock::Channel(a) => match other {
                MessageBlock::Channel(b) => a.0 == b.0,
                _ => false,
            },
            MessageBlock::Role(a) => match other {
                MessageBlock::Role(b) => a.0 == b.0,
                _ => false,
            },
            MessageBlock::Timestamp(a) => match other {
                MessageBlock::Timestamp(b) => *a == *b,
                _ => false,
            },
            MessageBlock::Text(a) => match other {
                MessageBlock::Text(b) => *a == *b,
                _ => false,
            },
        }
    }
}

impl vstd::std_specs::cmp::PartialEqSpecImpl for MessageBlock {
    open spec fn obeys_eq_spec() -> bool {
        true
    }

    open spec fn eq_spec(&self, other: &Self) -> bool {
        self@ == other@
    }
}

/// Represents the contents of a message: its decoded blocks in order.
pub struct MessageContent(pub Vec<MessageBlock>);

impl View for MessageContent {
    type V = Seq<BlockModel>;

    open spec fn view(&self) -> Seq<BlockModel> {
        self.0@.map_values(|b: MessageBlock| b@)
    }
}

/// The formatted mention string for a role: `<@&ID>`.
pub open spec fn spec_format_role(id: u64) -> Seq<char> {
    seq!['<', '@', '&'] + decimal::spec_decimal(id as nat) + seq!['>']
}

/// The formatted mention string for a user: `<@ID>`.
pub open spec fn spec_format_user(id: u64) -> Seq<char> {
    seq!['<', '@'] + decimal::spec_decimal(id as nat) + seq!['>']
}

/// The formatted mention string for a channel: `<#ID>`.
pub open spec fn spec_format_channel(id: u64) -> Seq<char> {
    seq!['<', '#'] + decimal::spec_decimal(id as nat) + seq!['>']
}

/// The formatted mention string for a moment in time: `<t:UNIXSECONDS>`.
pub open spec fn spec_format_timestamp(t: i64) -> Seq<char> {
    seq!['<', 't', ':'] + decimal::spec_decimal_i64(t as int) + seq!['>']
}

/// The decoded form of one token. A token is a mention only when it is
/// wrapped in angle brackets, carries a known prefix — tested in the
/// fixed priority order role, user, channel, timestamp — and its
/// payload parses as an integer; otherwise it stays literal text.
pub open spec fn spec_decode_part(s: Seq<char>) -> BlockModel {
    if s.len() >= 2 && s[0] == '<' && s.last() == '>' {
        let inner = s.subrange(1, s.len() - 1);
        if inner.len() >= 2 && inner[0] == '@' && inner[1] == '&' {
            match decimal::spec_parse_u64(inner.skip(2)) {
                Some(v) => BlockModel::Role(v),
                None => BlockModel::Text(s),
            }
        } else if inner.len() >= 1 && inner[0] == '@' {
            match decimal::spec_parse_u64(inner.skip(1)) {
                Some(v) => BlockModel::User(v),
                None => BlockModel::Text(s),
            }
        } else if inner.len() >= 1 && inner[0] == '#' {
            match decimal::spec_parse_u64(inner.skip(1)) {
                Some(v) => BlockModel::Channel(v),
                None => BlockModel::Text(s),
            }
        } else if inner.len() >= 2 && inner[0] == 't' && inner[1] == ':' {
            match decimal::spec_parse_i64(inner.skip(2)) {
                Some(v) => BlockModel::Timestamp(v),
                None => BlockModel::Text(s),
            }
        } else {
            BlockModel::Text(s)
        }
    } else {
        BlockModel::Text(s)
    }
}

/// Creates the formatted string for mentioning a role in a message's content.
pub fn format_role(role_id: RoleId) -> (s: String)
    ensures
        s@ == spec_format_role(role_id.0),
{
    proof {
        reveal_strlit("<@&");
        reveal_strlit(">");
    }
    let mut s = "<@&".to_owned();
    s.append(decimal::u64_to_string(role_id.0).as_str());
    s.append(">");
    assert(s@ =~= spec_format_role(role_id.0));
    s
}

/// Creates the formatted string for mentioning a user in a message's content.
pub fn format_user(user_id: UserId) -> (s: String)
    ensures
        s@ == spec_format_user(user_id.0),
{
    proof {
        reveal_strlit("<@");
        reveal_strlit(">");
    }
    let mut s = "<@".to_owned();
    s.append(decimal::u64_to_string(user_id.0).as_str());
    s.append(">");
    assert(s@ =~= spec_format_user(user_id.0));
    s
}

/// Creates the formatted string for mentioning a channel in a message's content.
pub fn format_channel(channel_id: ChannelId) -> (s: String)
    ensures
        s@ == spec_format_channel(channel_id.0),
{
    proof {
        reveal_strlit("<#");
        reveal_strlit(">");
    }
    let mut s = "<#".to_owned();
    s.append(decimal::u64_to_string(channel_id.0).as_str());
    s.append(">");
    assert(s@ =~= spec_format_channel(channel_id.0));
    s
}

/// Creates the formatted string for mentioning a moment in time in a
/// message's content.
pub fn format_timestamp(unix_timestamp: i64) -> (s: String)
    ensures
        s@ == spec_format_timestamp(unix_timestamp),
{
    proof {
        reveal_strlit("<t:");
        reveal_strlit(">");
    }
    let mut s = "<t:".to_owned();
    s.append(decimal::i64_to_string(unix_timestamp).as_str());
    s.append(">");
    assert(s@ =~= spec_format_timestamp(unix_timestamp));
    s
}

/// Law: every well-formed mention token round-trips — decoding the
/// formatted mention for an identifier gives back exactly the mention
/// block for that identifier, for each of the four mention kinds.
pub proof fn lemma_mention_round_trip(id: u64, t: i64)
    ensures
        spec_decode_part(spec_format_role(id)) == BlockModel::Role(id),
        spec_decode_part(spec_format_user(id)) == BlockModel::User(id),
        spec_decode_part(spec_format_channel(id)) == BlockModel::Channel(id),
        spec_decode_part(spec_format_timestamp(t)) == BlockModel::Timestamp(t),
{
    decimal::lemma_decimal_digits(id as nat);
    decimal::lemma_decimal_parse_u64(id);
    decimal::lemma_decimal_parse_i64(t);
    let d = decimal::spec_decimal(id as nat);
    {
        let s = spec_format_role(id);
        assert(s[0] == '<' && s.last() == '>');
        let inner = s.subrange(1, s.len() - 1);
        assert(inner =~= seq!['@', '&'] + d);
        assert(inner.skip(2) =~= d);
        assert(spec_decode_part(s) == BlockModel::Role(id));
    }
    {
        let s = spec_format_user(id);
        assert(s[0] == '<' && s.last() == '>');
        let inner = s.subrange(1, s.len() - 1);
        assert(inner =~= seq!['@'] + d);
        assert(decimal::is_digit_char(inner[1]) && inner[1] != '&');
        assert(inner.skip(1) =~= d);
        assert(spec_decode_part(s) == BlockModel::User(id));
    }
    {
        let s = spec_format_channel(id);
        assert(s[0] == '<' && s.last() == '>');
        let inner = s.subrange(1, s.len() - 1);
        assert(inner =~= seq!['#'] + d);
        assert(inner.skip(1) =~= d);
        assert(spec_decode_part(s) == BlockModel::Channel(id));
    }
    {
        let dt = decimal::spec_decimal_i64(t as int);
        let s = spec_format_timestamp(t);
        assert(s[0] == '<' && s.last() == '>');
        let inner = s.subrange(1, s.len() - 1);
        assert(inner =~= seq!['t', ':'] + dt);
        assert(inner.skip(2) =~= dt);
        assert(spec_decode_part(s) == BlockModel::Timestamp(t));
    }
}

/// Law: a malformed token decodes to literal text holding the original
/// token unchanged — whether the brackets are missing or unmatched, the
/// prefix is unknown, or the payload does not parse as an integer.
pub proof fn lemma_malformed_token_decodes_to_text(s: Seq<char>)
    ensures
        !(s.len() >= 2 && s[0] == '<' && s.last() == '>') ==> spec_decode_part(s)
            == BlockModel::Text(s),
        (s.len() >= 2 && s[0] == '<' && s.last() == '>') ==> {
            let inner = s.subrange(1, s.len() - 1);
            &&& (inner.len() >= 2 && inner[0] == '@' && inner[1] == '&'
                && decimal::spec_parse_u64(inner.skip(2)) is None) ==> spec_decode_part(s)
                == BlockModel::Text(s)
            &&& (inner.len() >= 1 && inner[0] == '@' && !(inner.len() >= 2 && inner[1] == '&')
                && decimal::spec_parse_u64(inner.skip(1)) is None) ==> spec_decode_part(s)
                == BlockModel::Text(s)
            &&& (inner.len() >= 1 && inner[0] == '#' && decimal::spec_parse_u64(inner.skip(1))
                is None) ==> spec_decode_part(s) == BlockModel::Text(s)
            &&& (inner.len() >= 2 && inner[0] == 't' && inner[1] == ':'
                && decimal::spec_parse_i64(inner.skip(2)) is None) ==> spec_decode_part(s)
                == BlockModel::Text(s)
            &&& (!(inner.len() >= 2 && inner[0] == '@' && inner[1] == '&') && !(inner.len() >= 1
                && (inner[0] == '@' || inner[0] == '#')) && !(inner.len() >= 2 && inner[0] == 't'
                && inner[1] == ':')) ==> spec_decode_part(s) == BlockModel::Text(s)
        },
{
}

/// Attempts to decode a string as a message block.
///
/// Never fails and never drops input: a token that is not a well-formed
/// mention comes back unchanged as literal text, so the caller can
/// always display something.
pub fn decode_message_part(original_part: &str) -> (b: MessageBlock)
    ensures
        b@ == spec_decode_part(original_part@),
{
    let n = original_part.unicode_len();
    if n < 2 || original_part.get_char(0) != '<' || original_part.get_char(n - 1) != '>' {
        return MessageBlock::Text(original_part.to_owned());
    }
    let ghost inner = original_part@.subrange(1, n - 1);
    if n >= 4 && original_part.get_char(1) == '@' && original_part.get_char(2) == '&' {
        let payload = original_part.substring_char(3, n - 1);
        assert(payload@ =~= inner.skip(2));
        match decimal::parse_u64(payload) {
            Some(v) => MessageBlock::Role(RoleId(v)),
            None => MessageBlock::Text(original_part.to_owned()),
        }
    } else if n >= 3 && original_part.get_char(1) == '@' {
        let payload = original_part.substring_char(2, n - 1);
        assert(payload@ =~= inner.skip(1));
        match decimal::parse_u64(payload) {
            Some(v) => MessageBlock::User(UserId(v)),
            None => MessageBlock::Text(original_part.to_owned()),
        }
    } else if n >= 3 && original_part.get_char(1) == '#' {
        let payload = original_part.substring_char(2, n - 1);
        assert(payload@ =~= inner.skip(1));
        match decimal::parse_u64(payload) {
            Some(v) => MessageBlock::Channel(ChannelId(v)),
            None => MessageBlock::Text(original_part.to_owned()),
        }
    } else if n >= 4 && original_part.get_char(1) == 't' && original_part.get_char(2) == ':' {
        let payload = original_part.substring_char(3, n - 1);
        assert(payload@ =~= inner.skip(2));
        match decimal::parse_i64(payload) {
            Some(v) => MessageBlock::Timestamp(v),
            None => MessageBlock::Text(original_part.to_owned()),
        }
    } else {
        MessageBlock::Text(original_part.to_owned())
    }
}

/// True for the whitespace characters that delimit message tokens: the
/// Unicode White_Space set.
pub open spec fn is_whitespace_char(c: char) -> bool {
    c == '\u{0009}' || c == '\u{000A}' || c == '\u{000B}' || c == '\u{000C}' || c == '\u{000D}'
        || c == '\u{0020}' || c == '\u{0085}' || c == '\u{00A0}' || c == '\u{1680}'
        || c == '\u{2000}' || c == '\u{2001}' || c == '\u{2002}' || c == '\u{2003}'
        || c == '\u{2004}' || c == '\u{2005}' || c == '\u{2006}' || c == '\u{2007}'
        || c == '\u{2008}' || c == '\u{2009}' || c == '\u{200A}' || c == '\u{2028}'
        || c == '\u{2029}' || c == '\u{202F}' || c == '\u{205F}' || c == '\u{3000}'
}

/// The position right after the token starting at `i`: the first
/// position at or after `i` holding whitespace, or the end of the text.
pub open spec fn spec_token_end(s: Seq<char>, i: int) -> int
    decreases s.len() - i when 0 <= i <= s.len()
{
    if i >= s.len() || is_whitespace_char(s[i]) {
        i
    } else {
        spec_token_end(s, i + 1)
    }
}

/// A token's end lies between its start and the end of the text.
pub proof fn lemma_token_end_bounds(s: Seq<char>, i: int)
    requires
        0 <= i <= s.len(),
    ensures
        i <= spec_token_end(s, i) <= s.len(),
    decreases s.len() - i,
{
    if !(i >= s.len() || is_whitespace_char(s[i])) {
        lemma_token_end_bounds(s, i + 1);
    }
}

/// The tokens of `s` from position `i` on: maximal runs of
/// non-whitespace characters, in order.
pub open spec fn spec_tokens_from(s: Seq<char>, i: int) -> Seq<Seq<char>>
    decreases s.len() - i when 0 <= i <= s.len() via spec_tokens_from_decreases
{
    if i >= s.len() {
        Seq::empty()
    } else if is_whitespace_char(s[i]) {
        spec_tokens_from(s, i + 1)
    } else {
        seq![s.subrange(i, spec_token_end(s, i))] + spec_tokens_from(s, spec_token_end(s, i))
    }
}

#[via_fn]
proof fn spec_tokens_from_decreases(s: Seq<char>, i: int) {
    if 0 <= i < s.len() && !is_whitespace_char(s[i]) {
        lemma_token_end_bounds(s, i + 1);
    }
}

/// The whitespace-delimited tokens of `s`, in order.
pub open spec fn spec_tokens(s: Seq<char>) -> Seq<Seq<char>> {
    spec_tokens_from(s, 0)
}

/// The decoded blocks of a whole message body: each token decoded
/// independently, in order.
pub open spec fn spec_decode_message(s: Seq<char>) -> Seq<BlockModel> {
    spec_tokens(s).map_values(|t: Seq<char>| spec_decode_part(t))
}

/// If positions `i..j` are non-whitespace and `j` is the text's end or
/// whitespace, then the token starting at `i` ends exactly at `j`.
proof fn lemma_token_end_characterize(s: Seq<char>, i: int, j: int)
    requires
        0 <= i <= j <= s.len(),
        forall|k: int| i <= k < j ==> !is_whitespace_char(#[trigger] s[k]),
        j == s.len() || is_whitespace_char(s[j]),
    ensures
        spec_token_end(s, i) == j,
    decreases j - i,
{
    if i < j {
        lemma_token_end_characterize(s, i + 1, j);
    }
}

/// Exec test for a token-delimiting whitespace character.
fn is_ws(c: char) -> (r: bool)
    ensures
        r == is_whitespace_char(c),
{
    c == '\u{0009}' || c == '\u{000A}' || c == '\u{000B}' || c == '\u{000C}' || c == '\u{000D}'
        || c == '\u{0020}' || c == '\u{0085}' || c == '\u{00A0}' || c == '\u{1680}'
        || c == '\u{2000}' || c == '\u{2001}' || c == '\u{2002}' || c == '\u{2003}'
        || c == '\u{2004}' || c == '\u{2005}' || c == '\u{2006}' || c == '\u{2007}'
        || c == '\u{2008}' || c == '\u{2009}' || c == '\u{200A}' || c == '\u{2028}'
        || c == '\u{2029}' || c == '\u{202F}' || c == '\u{205F}' || c == '\u{3000}'
}

/// Decodes the tokens of `contents` from character position `i` on,
/// appending the decoded blocks to `out` in order.
fn decode_message_from(contents: &str, i: usize, out: &mut Vec<MessageBlock>)
    requires
        i <= contents@.len(),
    ensures
        final(out)@.map_values(|b: MessageBlock| b@) == old(out)@.map_values(
            |b: MessageBlock| b@,
        ) + spec_tokens_from(contents@, i as int).map_values(|t: Seq<char>| spec_decode_part(t)),
    decreases contents@.len() - i,
{
    let ghost f = |b: MessageBlock| b@;
    let ghost g = |t: Seq<char>| spec_decode_part(t);
    let n = contents.unicode_len();
    if i == n {
        assert(out@.map_values(f) =~= out@.map_values(f) + spec_tokens_from(
            contents@,
            i as int,
        ).map_values(g));
        return ;
    }
    if is_ws(contents.get_char(i)) {
        decode_message_from(contents, i + 1, out);
        return ;
    }
    // Scan to the end of the token that starts at `i`.
    let mut j = i + 1;
    while j < n && !is_ws(contents.get_char(j))
        invariant
            i < j <= n,
            n == contents@.len(),
            forall|k: int| i <= k < j ==> !is_whitespace_char(#[trigger] contents@[k]),
        decreases n - j,
    {
        j = j + 1;
    }
    proof {
        lemma_token_end_characterize(contents@, i as int, j as int);
    }
    let token = contents.substring_char(i, j);
    let block = decode_message_part(token);
    let ghost mid = out@.push(block);
    out.push(block);
    decode_message_from(contents, j, out);
    proof {
        let toks = spec_tokens_from(contents@, i as int);
        assert(toks == seq![contents@.subrange(i as int, j as int)] + spec_tokens_from(
            contents@,
            j as int,
        ));
        assert(token@ =~= contents@.subrange(i as int, j as int));
        assert(mid.map_values(f) =~= old(out)@.map_values(f).push(g(token@)));
        assert(out@.map_values(f) =~= old(out)@.map_values(f) + toks.map_values(g));
    }
}

/// Decodes the provided string as message contents: every
/// whitespace-delimited token, decoded independently and in order.
pub fn decode_message(contents: &str) -> (m: MessageContent)
    ensures
        m@ == spec_decode_message(contents@),
{
    let mut blocks: Vec<MessageBlock> = Vec::new();
    decode_message_from(contents, 0, &mut blocks);
    assert(blocks@.map_values(|b: MessageBlock| b@) =~= spec_decode_message(contents@));
    MessageContent(blocks)
}

} // verus!
