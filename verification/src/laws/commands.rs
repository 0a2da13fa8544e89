//! What lines of input ask for.
use crate::commands::{command_of, CommandView};
use crate::laws::text::{
    all_space, ends_here, no_space, starting_is_going_on, the_first_word_is, the_second_word_is,
    trimming_takes_white_space_off, what_stands_before,
};
use crate::text::{is_space, starts_with};
use vstd::prelude::*;
use vstd::utf8::encode_utf8;

verus! {

/// What the names of the commands are.
proof fn names_of_commands()
    ensures
        "/help"@ == seq!['/', 'h', 'e', 'l', 'p'],
        "/name "@ == seq!['/', 'n', 'a', 'm', 'e', ' '],
        "/list"@ == seq!['/', 'l', 'i', 's', 't'],
        "/public"@ == seq!['/', 'p', 'u', 'b', 'l', 'i', 'c'],
        "/reply"@ == seq!['/', 'r', 'e', 'p', 'l', 'y'],
        "/online"@ == seq!['/', 'o', 'n', 'l', 'i', 'n', 'e'],
        "/w"@ == seq!['/', 'w'],
        "/status"@ == seq!['/', 's', 't', 'a', 't', 'u', 's'],
        "/exit"@ == seq!['/', 'e', 'x', 'i', 't'],
        "/clear"@ == seq!['/', 'c', 'l', 'e', 'a', 'r'],
        "/dm "@ == seq!['/', 'd', 'm', ' '],
        "/j "@ == seq!['/', 'j', ' '],
        "/join "@ == seq!['/', 'j', 'o', 'i', 'n', ' '],
{
    reveal_strlit("/help");
    reveal_strlit("/name ");
    reveal_strlit("/list");
    reveal_strlit("/public");
    reveal_strlit("/reply");
    reveal_strlit("/online");
    reveal_strlit("/w");
    reveal_strlit("/status");
    reveal_strlit("/exit");
    reveal_strlit("/clear");
    reveal_strlit("/dm ");
    reveal_strlit("/j ");
    reveal_strlit("/join ");
    assert("/help"@ =~= seq!['/', 'h', 'e', 'l', 'p']);
    assert("/name "@ =~= seq!['/', 'n', 'a', 'm', 'e', ' ']);
    assert("/list"@ =~= seq!['/', 'l', 'i', 's', 't']);
    assert("/public"@ =~= seq!['/', 'p', 'u', 'b', 'l', 'i', 'c']);
    assert("/reply"@ =~= seq!['/', 'r', 'e', 'p', 'l', 'y']);
    assert("/online"@ =~= seq!['/', 'o', 'n', 'l', 'i', 'n', 'e']);
    assert("/w"@ =~= seq!['/', 'w']);
    assert("/status"@ =~= seq!['/', 's', 't', 'a', 't', 'u', 's']);
    assert("/exit"@ =~= seq!['/', 'e', 'x', 'i', 't']);
    assert("/clear"@ =~= seq!['/', 'c', 'l', 'e', 'a', 'r']);
    assert("/dm "@ =~= seq!['/', 'd', 'm', ' ']);
    assert("/j "@ =~= seq!['/', 'j', ' ']);
    assert("/join "@ =~= seq!['/', 'j', 'o', 'i', 'n', ' ']);
}

proof fn prefix_chars(s: Seq<char>, prefix: Seq<char>, i: int)
    requires
        starts_with(s, prefix),
        0 <= i < prefix.len(),
    ensures
        s[i] == prefix[i],
{
    assert(s.take(prefix.len() as int)[i] == s[i]);
}

proof fn no_other_prefix(line: Seq<char>)
    requires
        line.len() > 1,
    ensures
        line[1] != 'n' ==> !starts_with(line, "/name "@),
        line[1] != 'd' ==> !starts_with(line, "/dm "@),
        line[1] != 'j' ==> !starts_with(line, "/j "@) && !starts_with(line, "/join "@),
{
    names_of_commands();
    if starts_with(line, "/name "@) {
        prefix_chars(line, "/name "@, 1);
    }
    if starts_with(line, "/dm "@) {
        prefix_chars(line, "/dm "@, 1);
    }
    if starts_with(line, "/j "@) {
        prefix_chars(line, "/j "@, 1);
    }
    if starts_with(line, "/join "@) {
        prefix_chars(line, "/join "@, 1);
    }
}

/// `/name` asks for the nickname that stands behind it, without the white space around it, where
/// there is one and it has at most twenty bytes.
#[verifier::spinoff_prover]
pub proof fn names_are_what_stands_behind(a: Seq<char>, name: Seq<char>, b: Seq<char>)
    requires
        all_space(a),
        all_space(b),
        name.len() > 0 ==> !is_space(name[0]) && !is_space(name.last()),
    ensures
        command_of("/name "@ + (a + name + b)) == if name.len() == 0 {
            CommandView::NameMissing
        } else if encode_utf8(name).len() > 20 {
            CommandView::NameTooLong
        } else {
            CommandView::Rename(name)
        },
{
    let rest = a + name + b;
    let line = "/name "@ + rest;
    names_of_commands();
    starting_is_going_on(line, "/name "@, rest);
    trimming_takes_white_space_off(a, name, b);
    assert(line[0] == '/' && line[1] == 'n');
}

/// `/dm` asks for the peer whose nickname stands behind it, up to the next space, and for a message
/// of all that stands behind that space.
#[verifier::spinoff_prover]
pub proof fn private_lines_are_for_whom_they_name(nickname: Seq<char>, message: Seq<char>)
    requires
        !nickname.contains(' '),
    ensures
        command_of("/dm "@ + nickname) == (CommandView::Dm { nickname, message: None }),
        command_of("/dm "@ + (nickname + seq![' '] + message)) == (CommandView::Dm {
            nickname,
            message: Some(message),
        }),
{
    names_of_commands();
    let short = "/dm "@ + nickname;
    let rest = nickname + seq![' '] + message;
    let long = "/dm "@ + rest;
    what_stands_before(nickname, message, ' ');
    assert(short[1] == 'd' && long[1] == 'd');
    no_other_prefix(short);
    no_other_prefix(long);
    starting_is_going_on(short, "/dm "@, nickname);
    starting_is_going_on(long, "/dm "@, rest);
    assert(nickname.take(nickname.len() as int) =~= nickname);
    assert(rest.take(nickname.len() as int) =~= nickname);
    assert(rest.skip(nickname.len() as int + 1) =~= message);
}

/// The words that ask to join a channel.
pub open spec fn asks_to_join(word: Seq<char>) -> bool {
    word == seq!['/', 'j'] || word == seq!['/', 'j', 'o', 'i', 'n']
}

/// `/j` and `/join` ask for the channel that is the next word, where that starts with a hash;
/// what follows it does not matter.
#[verifier::spinoff_prover]
pub proof fn joined_channels_are_the_next_word(word: Seq<char>, gap: Seq<char>, channel: Seq<char>, r: Seq<char>)
    requires
        asks_to_join(word),
        gap.len() > 0,
        gap[0] == ' ',
        all_space(gap),
        channel.len() > 0,
        no_space(channel),
        ends_here(r),
    ensures
        command_of(word + gap + channel + r) == if channel[0] == '#' {
            CommandView::Join(channel)
        } else {
            CommandView::ChannelInvalid
        },
        command_of(word + gap) == CommandView::ChannelInvalid,
{
    names_of_commands();
    let line = word + gap + channel + r;
    let short = word + gap;
    assert(line[0] == '/' && line[1] == 'j' && short[0] == '/' && short[1] == 'j');
    no_other_prefix(line);
    no_other_prefix(short);
    if word == seq!['/', 'j'] {
        assert("/j "@ =~= word + seq![' ']);
        assert(line =~= "/j "@ + (gap.skip(1) + channel + r));
        assert(short =~= "/j "@ + gap.skip(1));
        starting_is_going_on(line, "/j "@, gap.skip(1) + channel + r);
        starting_is_going_on(short, "/j "@, gap.skip(1));
    } else {
        assert("/join "@ =~= word + seq![' ']);
        assert(line =~= "/join "@ + (gap.skip(1) + channel + r));
        assert(short =~= "/join "@ + gap.skip(1));
        starting_is_going_on(line, "/join "@, gap.skip(1) + channel + r);
        starting_is_going_on(short, "/join "@, gap.skip(1));
    }
    assert(no_space(word));
    let none = Seq::<char>::empty();
    assert(line =~= none + word + gap + channel + r);
    assert(short =~= none + word + gap);
    the_second_word_is(none, word, gap, channel, r);
}

/// The words that are commands by themselves.
pub open spec fn stands_alone(word: Seq<char>) -> bool {
    ||| word == "/help"@
    ||| word == "/list"@
    ||| word == "/public"@
    ||| word == "/reply"@
    ||| word == "/online"@
    ||| word == "/w"@
    ||| word == "/status"@
    ||| word == "/exit"@
    ||| word == "/clear"@
}

/// The words that are commands with something behind them.
pub open spec fn takes_more(word: Seq<char>) -> bool {
    ||| word == seq!['/', 'n', 'a', 'm', 'e']
    ||| word == seq!['/', 'd', 'm']
    ||| asks_to_join(word)
}

proof fn word_of_prefix(word: Seq<char>, rest: Seq<char>, name: Seq<char>)
    requires
        no_space(word),
        no_space(name),
        ends_here(rest),
        starts_with(word + rest, name + seq![' ']),
    ensures
        word == name,
        rest.len() > 0,
        rest[0] == ' ',
{
    let line = word + rest;
    let prefix = name + seq![' '];
    assert forall|i: int| 0 <= i < prefix.len() implies line[i] == #[trigger] prefix[i] by {
        prefix_chars(line, prefix, i);
    }
    let n = name.len() as int;
    assert(prefix[n] == ' ');
    assert(line[n] == prefix[n]);
    if word.len() < n {
        assert(line[word.len() as int] == prefix[word.len() as int]);
        assert(line[word.len() as int] == rest[0]);
        assert(!is_space(name[word.len() as int]));
    } else if word.len() > n {
        assert(line[n] == word[n]);
        assert(!is_space(word[n]));
    } else {
        assert forall|i: int| 0 <= i < n implies word[i] == name[i] by {
            assert(line[i] == prefix[i]);
        }
        assert(word =~= name);
        assert(line[n] == rest[0]);
    }
}

proof fn word_of_line(word: Seq<char>, rest: Seq<char>, name: Seq<char>)
    requires
        no_space(name),
        ends_here(rest),
        word + rest == name,
    ensures
        rest.len() == 0,
        word == name,
{
    if rest.len() > 0 {
        assert((word + rest)[word.len() as int] == rest[0]);
        assert(!is_space(name[word.len() as int]));
    }
    assert(word + rest =~= word);
}

/// A line that starts with a slash and is none of the commands is an unknown command: its first
/// word is named.
#[verifier::spinoff_prover]
pub proof fn other_commands_are_unknown(word: Seq<char>, rest: Seq<char>)
    requires
        word.len() > 0,
        word[0] == '/',
        no_space(word),
        ends_here(rest),
        !(rest.len() == 0 && stands_alone(word)),
        !(rest.len() > 0 && rest[0] == ' ' && takes_more(word)),
    ensures
        command_of(word + rest) == CommandView::Unknown(word),
{
    let line = word + rest;
    names_of_commands();
    assert(line[0] == '/');
    assert(line != "/help"@) by {
        if line == "/help"@ {
            word_of_line(word, rest, "/help"@);
        }
    }
    assert(line != "/list"@) by {
        if line == "/list"@ {
            word_of_line(word, rest, "/list"@);
        }
    }
    assert(line != "/public"@) by {
        if line == "/public"@ {
            word_of_line(word, rest, "/public"@);
        }
    }
    assert(line != "/reply"@) by {
        if line == "/reply"@ {
            word_of_line(word, rest, "/reply"@);
        }
    }
    assert(line != "/online"@) by {
        if line == "/online"@ {
            word_of_line(word, rest, "/online"@);
        }
    }
    assert(line != "/w"@) by {
        if line == "/w"@ {
            word_of_line(word, rest, "/w"@);
        }
    }
    assert(line != "/status"@) by {
        if line == "/status"@ {
            word_of_line(word, rest, "/status"@);
        }
    }
    assert(line != "/exit"@) by {
        if line == "/exit"@ {
            word_of_line(word, rest, "/exit"@);
        }
    }
    assert(line != "/clear"@) by {
        if line == "/clear"@ {
            word_of_line(word, rest, "/clear"@);
        }
    }
    assert(!starts_with(line, "/name "@)) by {
        if starts_with(line, "/name "@) {
            let name = seq!['/', 'n', 'a', 'm', 'e'];
            assert("/name "@ =~= name + seq![' ']);
            word_of_prefix(word, rest, name);
        }
    }
    assert(!starts_with(line, "/dm "@)) by {
        if starts_with(line, "/dm "@) {
            let name = seq!['/', 'd', 'm'];
            assert("/dm "@ =~= name + seq![' ']);
            word_of_prefix(word, rest, name);
        }
    }
    assert(!starts_with(line, "/j "@)) by {
        if starts_with(line, "/j "@) {
            let name = seq!['/', 'j'];
            assert("/j "@ =~= name + seq![' ']);
            word_of_prefix(word, rest, name);
        }
    }
    assert(!starts_with(line, "/join "@)) by {
        if starts_with(line, "/join "@) {
            let name = seq!['/', 'j', 'o', 'i', 'n'];
            assert("/join "@ =~= name + seq![' ']);
            word_of_prefix(word, rest, name);
        }
    }
    let none = Seq::<char>::empty();
    assert(line =~= none + word + rest);
    the_first_word_is(none, word, rest);
}

/// A single digit asks for the conversation with that number, and an empty line for nothing.
pub proof fn digits_switch(digit: char)
    requires
        '0' <= digit,
        digit <= '9',
    ensures
        command_of(seq![digit]) matches CommandView::SwitchTo(n) && n == digit as int - '0' as int,
        command_of(Seq::empty()) == CommandView::Nothing,
{
}

/// The words that are commands by themselves ask for what they say.
pub proof fn words_ask_for_what_they_say()
    ensures
        command_of("/help"@) == CommandView::Help,
        command_of("/list"@) == CommandView::List,
        command_of("/public"@) == CommandView::Public,
        command_of("/reply"@) == CommandView::Reply,
        command_of("/online"@) == CommandView::Online,
        command_of("/w"@) == CommandView::Online,
        command_of("/status"@) == CommandView::Status,
        command_of("/exit"@) == CommandView::Exit,
        command_of("/clear"@) == CommandView::Clear,
{
    names_of_commands();
    no_other_prefix("/help"@);
    no_other_prefix("/list"@);
    no_other_prefix("/public"@);
    no_other_prefix("/reply"@);
    no_other_prefix("/online"@);
    no_other_prefix("/w"@);
    no_other_prefix("/status"@);
    no_other_prefix("/exit"@);
    no_other_prefix("/clear"@);
    assert("/help"@[1] == 'h' && "/list"@[1] == 'l' && "/public"@[1] == 'p' && "/reply"@[1] == 'r' && "/online"@[1]
        == 'o' && "/w"@[1] == 'w' && "/status"@[1] == 's' && "/exit"@[1] == 'e' && "/clear"@[1] == 'c');
    assert("/online"@.len() == 7);
}

} // verus!
