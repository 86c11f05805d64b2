//! A labelled text field of the client, possibly hiding what is typed.
use vstd::prelude::*;
use vstd::string::*;
use vstd::utf8::encode_utf8;
use crate::crypto::{hash_password, password_hash_spec};

verus! {

/// A text field. The text is edited beside the library (key by key) and
/// read here.
#[derive(Debug)]
pub struct InputField {
    pub label: String,
    /// What has been typed.
    pub text: String,
    pub focused: bool,
    /// A hidden field shows stars and yields a password digest.
    pub hidden: bool,
}

impl Default for InputField {
    fn default() -> (res: Self)
        ensures
            res.label@.len() == 0,
            res.text@.len() == 0,
            !res.focused,
            !res.hidden,
    {
        Self { label: String::new(), text: String::new(), focused: false, hidden: false }
    }
}

/// What a field displays: one star per byte of the text (as `str::len`
/// counts them) when hidden, the text itself otherwise.
pub open spec fn display_spec(text: Seq<char>, hidden: bool) -> Seq<char> {
    if hidden {
        Seq::new((encode_utf8(text).len() as usize) as nat, |i: int| '*')
    } else {
        text
    }
}

/// What a field yields: the password digest when hidden, the text itself
/// otherwise.
pub open spec fn value_spec(text: Seq<char>, hidden: bool) -> Seq<char> {
    if hidden {
        password_hash_spec(text)
    } else {
        text
    }
}

impl InputField {
    pub fn new(label: String) -> (res: Self)
        ensures
            res.label@ == label@,
            res.text@.len() == 0,
            !res.focused,
            !res.hidden,
    {
        let mut new = Self::default();
        new.label = label;
        new
    }

    pub fn is_empty(&self) -> (res: bool)
        ensures
            res == (self.text@.len() == 0),
    {
        self.text.as_str().is_empty()
    }

    pub fn display(&self) -> (res: String)
        ensures
            res@ == display_spec(self.text@, self.hidden),
    {
        if self.hidden {
            let n = self.text.as_str().len();
            let mut stars = String::new();
            proof {
                reveal_strlit("*");
            }
            for i in 0..n
                invariant
                    stars@ == Seq::new(i as nat, |j: int| '*'),
            {
                proof {
                    reveal_strlit("*");
                }
                stars.append("*");
                assert(stars@ =~= Seq::new((i + 1) as nat, |j: int| '*'));
            }
            return stars;
        }
        self.text.clone()
    }

    pub fn value(&self) -> (res: String)
        ensures
            res@ == value_spec(self.text@, self.hidden),
    {
        if self.hidden {
            return hash_password(self.text.as_str());
        }
        self.text.clone()
    }

    pub fn set_hidden(self, hidden: bool) -> (res: Self)
        ensures
            res.hidden == hidden,
            res.label == self.label,
            res.text == self.text,
            res.focused == self.focused,
    {
        let mut me = self;
        me.hidden = hidden;
        me
    }

    /// The text typed so far, with the field emptied.
    pub fn value_and_reset(&mut self) -> (res: String)
        ensures
            res@ == old(self).text@,
            final(self).text@.len() == 0,
            final(self).label == old(self).label,
            final(self).focused == old(self).focused,
            final(self).hidden == old(self).hidden,
    {
        let mut taken = String::new();
        std::mem::swap(&mut taken, &mut self.text);
        taken
    }
}

} // verus!
