use vstd::prelude::*;
use vstd::string::StrSliceExecFns;

verus! {

/// The number of cells between a key and its value.
pub const KV_PADDING: u32 = 2;

/// A text at a position of the grid.
pub struct Label {
    /// The position: the column, then the row.
    pub position: [u32; 2],
    /// The text.
    pub text: String,
}

/// The texts of the two truth values.
pub struct BooleanText {
    /// The text of true.
    pub yes: String,
    /// The text of false.
    pub no: String,
}

/// `n`, held to what 32 bits can express.
pub open spec fn clip(n: int) -> u32 {
    if n > u32::MAX {
        u32::MAX
    } else {
        n as u32
    }
}

/// The number of characters of `s`, held to what 32 bits can express.
fn width_of(s: &str) -> (width: u32)
    ensures
        width == clip(s@.len() as int),
{
    let n = s.unicode_len();
    if n > u32::MAX as usize {
        u32::MAX
    } else {
        n as u32
    }
}

impl BooleanText {
    /// The number of characters of the longer text.
    pub open spec fn spec_max_length(&self) -> nat {
        if self.yes@.len() > self.no@.len() {
            self.yes@.len()
        } else {
            self.no@.len()
        }
    }

    /// The number of characters of the longer text, held to what 32 bits can
    /// express.
    pub fn get_max_length(&self) -> (length: u32)
        ensures
            length == clip(self.spec_max_length() as int),
    {
        let yes = width_of(self.yes.as_str());
        let no = width_of(self.no.as_str());
        if yes > no {
            yes
        } else {
            no
        }
    }
}

/// A key and a truth value beside it.
pub struct Boolean {
    /// The key.
    pub key: Label,
    /// The position of the value.
    pub value_position: [u32; 2],
    /// The number of cells that the key and the value take.
    pub width: u32,
}

impl Boolean {
    /// The key `key` at `position` with room for a value beside it: the
    /// value stands behind the key and the padding, and the width is that of
    /// the key, the padding and the longer of the two texts. A column or a
    /// width beyond what 32 bits can express is held to that.
    pub fn new(key: &str, position: [u32; 2], boolean_text: &BooleanText) -> (boolean: Boolean)
        ensures
            boolean.key.position == position,
            boolean.key.text@ == key@,
            boolean.value_position[0] == clip(position[0] + key@.len() + KV_PADDING),
            boolean.value_position[1] == position[1],
            boolean.width == clip(key@.len() + KV_PADDING + boolean_text.spec_max_length()),
    {
        let key_width = width_of(key).saturating_add(KV_PADDING);
        let width = key_width.saturating_add(boolean_text.get_max_length());
        let key = Label { position, text: key.to_owned() };
        let value_position = [position[0].saturating_add(key_width), position[1]];
        Boolean { key, value_position, width }
    }

    /// The value `value` as a label: its text at the position of the value.
    pub fn get_boolean_label(&self, value: bool, boolean_text: &BooleanText) -> (label: Label)
        ensures
            label.position == self.value_position,
            label.text@ == if value {
                boolean_text.yes@
            } else {
                boolean_text.no@
            },
    {
        Label {
            position: self.value_position,
            text: if value {
                boolean_text.yes.clone()
            } else {
                boolean_text.no.clone()
            },
        }
    }
}

} // verus!
