use crate::text::push_text;
use vstd::prelude::*;

verus! {

/// Why code could not be generated for an expression.
#[derive(Debug)]
pub struct GenerateCodeError(String);

impl View for GenerateCodeError {
    type V = Seq<char>;

    closed spec fn view(&self) -> Seq<char> {
        self.0@
    }
}

impl GenerateCodeError {
    /// An error with the given message.
    pub fn new(msg: &str) -> (r: GenerateCodeError)
        ensures
            r@ == msg@,
    {
        GenerateCodeError(msg.to_owned())
    }

    /// What went wrong.
    pub fn message(&self) -> (r: &str)
        ensures
            r@ == self@,
    {
        self.0.as_str()
    }
}

/// The slots ` (name {})` of a record's display template, one per name.
pub open spec fn placeholder_slots(names: Seq<Seq<char>>) -> Seq<char>
    decreases names.len(),
{
    if names.len() == 0 {
        Seq::empty()
    } else {
        placeholder_slots(names.drop_last()) + " ("@ + names.last() + " {})"@
    }
}

/// The display template `(make-record (a {}) (b {}))` of a record with the
/// given field names, one `{}` per field value.
pub fn get_record_placeholder(names: &Vec<String>) -> (r: String)
    ensures
        r@ == "(make-record"@ + placeholder_slots(names@.map_values(|n: String| n@)) + ")"@,
{
    let ghost all = names@.map_values(|n: String| n@);
    let mut out = String::new();
    push_text(&mut out, "(make-record");
    let mut i: usize = 0;
    while i < names.len()
        invariant
            i <= names@.len(),
            all == names@.map_values(|n: String| n@),
            out@ == "(make-record"@ + placeholder_slots(all.subrange(0, i as int)),
        decreases names@.len() - i,
    {
        assert(all.subrange(0, i + 1).drop_last() =~= all.subrange(0, i as int));
        push_text(&mut out, " (");
        push_text(&mut out, names[i].as_str());
        push_text(&mut out, " {})");
        assert(out@ =~= "(make-record"@ + placeholder_slots(all.subrange(0, i + 1)));
        i = i + 1;
    }
    assert(all.subrange(0, i as int) =~= all);
    push_text(&mut out, ")");
    out
}

} // verus!
