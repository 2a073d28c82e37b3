//! Text that C code can take.

use vstd::prelude::*;

verus! {

/// Whether `chars` can be handed to C as a string that a NUL character ends.
pub open spec fn is_c_text(chars: Seq<char>) -> bool {
    !chars.contains('\0')
}

/// Texts without a NUL character can be joined.
pub proof fn lemma_c_text_concat(a: Seq<char>, b: Seq<char>)
    requires
        is_c_text(a),
        is_c_text(b),
    ensures
        is_c_text(a + b),
{
    assert forall|i: int| 0 <= i < (a + b).len() implies (a + b)[i] != '\0' by {
        if i < a.len() {
            assert(a[i] != '\0');
        } else {
            assert(b[i - a.len()] != '\0');
        }
    }
}

/// Text without a NUL character.
#[derive(Debug)]
pub struct CText {
    text: String,
}

impl View for CText {
    type V = Seq<char>;

    closed spec fn view(&self) -> Seq<char> {
        self.text@
    }
}

impl Clone for CText {
    fn clone(&self) -> (copy: Self)
        ensures
            copy == *self,
    {
        proof {
            use_type_invariant(self);
        }
        CText { text: self.text.clone() }
    }
}

impl CText {
    #[verifier::type_invariant]
    spec fn holds_no_nul(self) -> bool {
        is_c_text(self.text@)
    }

    /// Takes `text` if it holds no NUL character.
    pub fn new(text: String) -> (result: Option<CText>)
        ensures
            result is Some <==> is_c_text(text@),
            result matches Some(c_text) ==> c_text@ == text@,
    {
        let mut clean: bool = true;
        for c in it: text.chars()
            invariant
                it.seq() == text@,
                clean <==> !text@.take(it.index() as int).contains('\0'),
        {
            let ghost seen = text@.take(it.index() as int);
            assert(text@.take(it.index() as int + 1) =~= seen.push(c));
            if c == '\0' {
                assert(seen.push(c)[seen.len() as int] == '\0');
                clean = false;
            } else {
                assert(forall|i: int| 0 <= i < seen.len() ==> seen[i] == seen.push(c)[i]);
                assert(seen.push(c).contains('\0') ==> seen.contains('\0'));
                assert(seen.contains('\0') ==> seen.push(c).contains('\0'));
            }
        }
        assert(text@.take(text@.len() as int) =~= text@);
        if clean {
            Some(CText { text })
        } else {
            None
        }
    }

    /// Takes `text`, which holds no NUL character.
    pub(crate) fn from_clean(text: String) -> (c_text: CText)
        requires
            is_c_text(text@),
        ensures
            c_text@ == text@,
    {
        CText { text }
    }

    /// The text itself.
    pub fn as_str(&self) -> (text: &str)
        ensures
            text@ == self@,
            is_c_text(text@),
    {
        proof {
            use_type_invariant(self);
        }
        self.text.as_str()
    }
}

} // verus!
