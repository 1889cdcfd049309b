//! A per-session Log4j2 configuration for client launches: each session logs
//! to a file of its own, with message lookups disabled in the pattern.

use vstd::prelude::*;

use crate::text::{chars_of, push_all, push_str, string_of};

verus! {

/// The JVM system property that points Log4j2 at an external config file.
pub const CONFIG_PROPERTY: &'static str = "-Dlog4j.configurationFile=";

/// The global kill-switch for message lookups.
pub const NO_LOOKUPS_PROPERTY: &'static str = "-Dlog4j2.formatMsgNoLookups=true";

/// How one character is written inside an XML attribute value.
pub open spec fn escape_char(c: char) -> Seq<char> {
    if c == '&' {
        "&amp;"@
    } else if c == '<' {
        "&lt;"@
    } else if c == '>' {
        "&gt;"@
    } else if c == '"' {
        "&quot;"@
    } else if c == '\'' {
        "&apos;"@
    } else {
        seq![c]
    }
}

/// `s` with the five XML special characters escaped.
pub open spec fn escape(s: Seq<char>) -> Seq<char>
    decreases s.len(),
{
    if s.len() == 0 {
        Seq::empty()
    } else {
        escape(s.drop_last()) + escape_char(s.last())
    }
}

/// `text` with the five XML special characters escaped.
pub fn xml_escape(text: &str) -> (r: String)
    ensures
        r@ == escape(text@),
{
    let cs = chars_of(text);
    let mut out: Vec<char> = Vec::new();
    let mut i: usize = 0;
    while i < cs.len()
        invariant
            i <= cs@.len(),
            out@ == escape(cs@.take(i as int)),
        decreases cs.len() - i,
    {
        let c = cs[i];
        assert(cs@.take(i + 1).drop_last() =~= cs@.take(i as int));
        let ghost before = out@;
        if c == '&' {
            push_str(&mut out, "&amp;");
        } else if c == '<' {
            push_str(&mut out, "&lt;");
        } else if c == '>' {
            push_str(&mut out, "&gt;");
        } else if c == '"' {
            push_str(&mut out, "&quot;");
        } else if c == '\'' {
            push_str(&mut out, "&apos;");
        } else {
            out.push(c);
        }
        assert(out@ =~= before + escape_char(c));
        i += 1;
    }
    assert(cs@.take(cs@.len() as int) =~= cs@);
    string_of(&out)
}

/// The configuration text before the log file's name.
pub open spec fn config_head() -> Seq<char> {
    "<?xml version=\"1.0\" encoding=\"UTF-8\"?>\n<Configuration status=\"WARN\">\n  <Appenders>\n    <Console name=\"SysOut\" target=\"SYSTEM_OUT\">\n      <PatternLayout pattern=\"[%d{HH:mm:ss}] [%t/%level]: %m{nolookups}%n\"/>\n    </Console>\n    <File name=\"SessionFile\" fileName=\""@
}

/// The configuration text after the log file's name.
pub open spec fn config_tail() -> Seq<char> {
    "\">\n      <PatternLayout pattern=\"[%d{HH:mm:ss}] [%t/%level]: %m{nolookups}%n\"/>\n    </File>\n  </Appenders>\n  <Loggers>\n    <Root level=\"info\">\n      <AppenderRef ref=\"SysOut\"/>\n      <AppenderRef ref=\"SessionFile\"/>\n    </Root>\n  </Loggers>\n</Configuration>\n"@
}

/// A Log4j2 configuration that logs to the console and to `log_file`, whose
/// name is written escaped.
pub fn session_config(log_file: &str) -> (r: String)
    ensures
        r@ == config_head() + escape(log_file@) + config_tail(),
{
    let file = xml_escape(log_file);
    let mut out: Vec<char> = Vec::new();
    push_str(&mut out, "<?xml version=\"1.0\" encoding=\"UTF-8\"?>\n<Configuration status=\"WARN\">\n  <Appenders>\n    <Console name=\"SysOut\" target=\"SYSTEM_OUT\">\n      <PatternLayout pattern=\"[%d{HH:mm:ss}] [%t/%level]: %m{nolookups}%n\"/>\n    </Console>\n    <File name=\"SessionFile\" fileName=\"");
    push_str(&mut out, file.as_str());
    push_str(&mut out, "\">\n      <PatternLayout pattern=\"[%d{HH:mm:ss}] [%t/%level]: %m{nolookups}%n\"/>\n    </File>\n  </Appenders>\n  <Loggers>\n    <Root level=\"info\">\n      <AppenderRef ref=\"SysOut\"/>\n      <AppenderRef ref=\"SessionFile\"/>\n    </Root>\n  </Loggers>\n</Configuration>\n");
    string_of(&out)
}


/// An escaped value holds none of the characters that end or open markup:
/// no `<`, `>`, `"` or `'` survives escaping.
pub proof fn lemma_escape_leaves_no_markup(s: Seq<char>, i: int)
    requires
        0 <= i < escape(s).len(),
    ensures
        escape(s)[i] != '<' && escape(s)[i] != '>' && escape(s)[i] != '"' && escape(s)[i] != '\'',
    decreases s.len(),
{
    reveal_strlit("&amp;");
    reveal_strlit("&lt;");
    reveal_strlit("&gt;");
    reveal_strlit("&quot;");
    reveal_strlit("&apos;");
    if s.len() > 0 {
        let head = escape(s.drop_last());
        if i < head.len() {
            lemma_escape_leaves_no_markup(s.drop_last(), i);
        } else {
            let c = s.last();
            assert(escape(s)[i] == escape_char(c)[i - head.len()]);
        }
    }
}

/// Text without special characters is written as it stands.
pub proof fn lemma_escape_plain_is_identity(s: Seq<char>)
    requires
        forall|i: int| 0 <= i < s.len() ==> s[i] != '&' && s[i] != '<' && s[i] != '>' && s[i] != '"' && s[i] != '\'',
    ensures
        escape(s) == s,
    decreases s.len(),
{
    if s.len() > 0 {
        lemma_escape_plain_is_identity(s.drop_last());
        assert(s.drop_last().push(s.last()) =~= s);
    }
}

} // verus!
