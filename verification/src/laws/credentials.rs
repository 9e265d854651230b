//! Laws of tokens: where they come from, and what they are.
use crate::auth::{
    cache_credential, credential, file_credential, has_white_space, named_file, named_path,
    resolved, token_in, EnvView, HfTokenSource, PlacesView, LONGEST_TOKEN,
};
use crate::text::{byte_len, is_white_space, trim_end, trim_start, trimmed, Text};
use vstd::prelude::*;

verus! {

/// A token saved during the session comes before everything else.
pub proof fn session_tokens_come_first(p: PlacesView, token: Text)
    requires
        p.session == Some(token),
    ensures
        resolved(p) == credential(token, HfTokenSource::Session),
{
}

/// The environment's token comes next, whatever files there are.
pub proof fn environment_tokens_come_second(p: PlacesView, raw: Text, token: Text)
    requires
        p.session is None,
        p.environment == EnvView::Text(raw),
        token_in(raw) == Ok::<Option<Text>, Text>(Some(token)),
    ensures
        resolved(p) == credential(token, HfTokenSource::Environment),
{
}

/// Then come the file that the environment names, the saved one and the cache locations in order;
/// the first file that is there decides, also where it holds no token.
pub proof fn files_come_in_order(p: PlacesView)
    requires
        p.session is None,
        p.environment is Absent,
    ensures
        resolved(p) == if named_file(p.explicit) !is Absent {
            file_credential(
                named_path(p.explicit),
                named_file(p.explicit),
                HfTokenSource::ExplicitTokenPath,
            )
        } else if p.saved.1 !is Absent {
            file_credential(p.saved.0, p.saved.1, HfTokenSource::ComfyBoxCredential)
        } else {
            cache_credential(p.cache, 0)
        },
{
}

proof fn trim_start_facts(s: Text)
    ensures
        trim_start(s).len() > 0 ==> !is_white_space(trim_start(s)[0]),
        trim_start(s).len() <= s.len(),
    decreases s.len(),
{
    if s.len() > 0 && is_white_space(s[0]) {
        trim_start_facts(s.skip(1));
    }
}

proof fn trim_end_facts(s: Text)
    ensures
        trim_end(s).len() > 0 ==> !is_white_space(trim_end(s).last()) && trim_end(s)[0] == s[0],
        trim_end(s).len() <= s.len(),
    decreases s.len(),
{
    if s.len() > 0 && is_white_space(s.last()) {
        trim_end_facts(s.drop_last());
    }
}

/// What is trimmed already stays as it is.
pub proof fn trimming_twice_changes_nothing(s: Text)
    ensures
        trimmed(trimmed(s)) == trimmed(s),
{
    let t = trimmed(s);
    trim_start_facts(s);
    trim_end_facts(trim_start(s));
    if t.len() > 0 {
        assert(!is_white_space(t[0]));
        assert(!is_white_space(t.last()));
        assert(trim_start(t) == t);
        assert(trim_end(t) == t);
    }
}

/// A token is not empty, has no white space and no more bytes than the limit, and reads as itself.
pub proof fn tokens_are_clean(raw: Text, token: Text)
    requires
        token_in(raw) == Ok::<Option<Text>, Text>(Some(token)),
    ensures
        token.len() > 0,
        !has_white_space(token),
        byte_len(token) <= LONGEST_TOKEN,
        token_in(token) == Ok::<Option<Text>, Text>(Some(token)),
        token == trimmed(raw),
{
    trimming_twice_changes_nothing(raw);
}

/// A text of blanks holds no token, and is no error.
pub proof fn blanks_hold_no_token(raw: Text)
    requires
        forall|i: int| 0 <= i < raw.len() ==> is_white_space(#[trigger] raw[i]),
    ensures
        token_in(raw) == Ok::<Option<Text>, Text>(None),
    decreases raw.len(),
{
    blanks_trim_to_nothing(raw);
}

proof fn blanks_trim_to_nothing(raw: Text)
    requires
        forall|i: int| 0 <= i < raw.len() ==> is_white_space(#[trigger] raw[i]),
    ensures
        trim_start(raw).len() == 0,
    decreases raw.len(),
{
    if raw.len() > 0 {
        assert(is_white_space(raw[0]));
        let rest = raw.skip(1);
        assert forall|i: int| 0 <= i < rest.len() implies is_white_space(#[trigger] rest[i]) by {
            assert(is_white_space(raw[i + 1]));
        }
        blanks_trim_to_nothing(rest);
    }
}

}
