use super::writer::WriteItem;
use vstd::prelude::*;

verus! {

/// How write items are turned into text.
pub struct PrintWriteItemsOptions {
    /// The number of spaces of one level of indentation.
    pub indent_width: u8,
    /// Whether a level of indentation is one tab instead.
    pub use_tabs: bool,
    /// What a line break is written as.
    pub new_line_text: &'static str,
}

/// `text`, `times` times over.
pub open spec fn repeated(text: Seq<char>, times: nat) -> Seq<char>
    decreases times,
{
    if times == 0 {
        Seq::empty()
    } else {
        repeated(text, (times - 1) as nat) + text
    }
}

/// One level of indentation.
pub open spec fn indent_text(options: PrintWriteItemsOptions) -> Seq<char> {
    if options.use_tabs {
        seq!['\t']
    } else {
        repeated(seq![' '], options.indent_width as nat)
    }
}

/// What one item is written as. Markers are written as nothing.
pub open spec fn item_text(item: WriteItem, options: PrintWriteItemsOptions) -> Seq<char> {
    match item {
        WriteItem::Text(text) => text@,
        WriteItem::Indent(times) => repeated(indent_text(options), times as nat),
        WriteItem::NewLine => options.new_line_text@,
        WriteItem::Tab => seq!['\t'],
        WriteItem::Space => seq![' '],
        WriteItem::StartIgnoringIndent => Seq::empty(),
        WriteItem::FinishIgnoringIndent => Seq::empty(),
    }
}

/// What the items are written as, one after the other.
pub open spec fn items_text(items: Seq<WriteItem>, options: PrintWriteItemsOptions) -> Seq<char>
    decreases items.len(),
{
    if items.len() == 0 {
        Seq::empty()
    } else {
        items_text(items.drop_last(), options) + item_text(items.last(), options)
    }
}

/// Appends `text` to `target`, `times` times over.
fn push_repeated(target: &mut String, text: &str, times: u8)
    ensures
        final(target)@ == old(target)@ + repeated(text@, times as nat),
{
    let mut count: u8 = 0;
    while count < times
        invariant
            count <= times,
            target@ == old(target)@ + repeated(text@, count as nat),
        decreases times - count,
    {
        target.append(text);
        count = count + 1;
        assert(target@ =~= old(target)@ + repeated(text@, count as nat));
    }
}

/// The text of the write items.
pub fn print_write_items(write_items: &Vec<WriteItem>, options: PrintWriteItemsOptions) -> (text: String)
    ensures
        text@ == items_text(write_items@, options),
{
    let mut indent_string = String::new();
    if options.use_tabs {
        indent_string.append("\t");
        proof {
            reveal_strlit("\t");
        }
        assert(indent_string@ =~= indent_text(options));
    } else {
        proof {
            reveal_strlit(" ");
        }
        push_repeated(&mut indent_string, " ", options.indent_width);
        assert(" "@ =~= seq![' ']);
        assert(indent_string@ =~= indent_text(options));
    }
    let mut final_string = String::new();
    let mut index: usize = 0;
    while index < write_items.len()
        invariant
            index <= write_items@.len(),
            indent_string@ == indent_text(options),
            final_string@ == items_text(write_items@.take(index as int), options),
        decreases write_items@.len() - index,
    {
        let ghost before = final_string@;
        match write_items[index] {
            WriteItem::Text(text) => final_string.append(text.as_str()),
            WriteItem::Indent(times) => push_repeated(&mut final_string, indent_string.as_str(), times),
            WriteItem::NewLine => final_string.append(options.new_line_text),
            WriteItem::Tab => {
                proof {
                    reveal_strlit("\t");
                }
                final_string.append("\t");
                assert("\t"@ =~= seq!['\t']);
            },
            WriteItem::Space => {
                proof {
                    reveal_strlit(" ");
                }
                final_string.append(" ");
                assert(" "@ =~= seq![' ']);
            },
            WriteItem::StartIgnoringIndent => {},
            WriteItem::FinishIgnoringIndent => {},
        }
        index = index + 1;
        assert(write_items@.take(index as int).drop_last() =~= write_items@.take(index - 1));
        assert(final_string@ =~= before + item_text(write_items@[index - 1], options));
    }
    assert(write_items@.take(index as int) =~= write_items@);
    final_string
}

} // verus!
