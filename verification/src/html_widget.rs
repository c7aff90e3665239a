//! HTML widgets.
use vstd::prelude::*;

use crate::text;

verus! {

/// The type of the data of a widget, for frontends that show widgets.
pub const HTML_WIDGET_MIME_TYPE: &'static str = "application/vnd.r.htmlwidget";

/// What is shown of a widget: its tags, as JSON, and a plain text for other frontends.
#[derive(Debug, PartialEq, Eq)]
pub struct DisplayData {
    pub html_widget: String,
    pub text_plain: String,
}

/// What is shown of a widget of a class. It fails if the class is no text, or the tags
/// cannot be turned into JSON.
pub fn ps_html_widget(kind: Result<String, String>, tags: Result<String, String>) -> (r: Result<
    DisplayData,
    String,
>)
    ensures
        is_shown(r, kind, tags),
{
    let class: String = match kind {
        Ok(class) => class,
        Err(why) => {
            return Err(why);
        },
    };
    match tags {
        Ok(json) => Ok(
            DisplayData {
                html_widget: json,
                text_plain: text::join3("<", class.as_str(), " HTML widget>"),
            },
        ),
        Err(why) => Err(why),
    }
}

/// What is shown of a widget, or why it cannot be.
pub open spec fn is_shown(
    r: Result<DisplayData, String>,
    kind: Result<String, String>,
    tags: Result<String, String>,
) -> bool {
    match (kind, tags) {
        (Err(why), _) => r == Err::<DisplayData, String>(why),
        (Ok(_), Err(why)) => r == Err::<DisplayData, String>(why),
        (Ok(class), Ok(json)) => {
            &&& r matches Ok(data)
            &&& data.html_widget == json
            &&& data.text_plain@ == "<"@ + class@ + " HTML widget>"@
        },
    }
}

/// A widget is shown by its tags, and by its class where only text is shown.
pub proof fn law_widgets_are_shown(
    r: Result<DisplayData, String>,
    class: String,
    json: String,
    why: String,
)
    ensures
        is_shown(r, Ok(class), Ok(json)) ==> (r matches Ok(data) && data.html_widget == json
            && data.text_plain@ == "<"@ + class@ + " HTML widget>"@),
        is_shown(r, Err(why), Ok(json)) ==> r == Err::<DisplayData, String>(why),
        is_shown(r, Ok(class), Err(why)) ==> r == Err::<DisplayData, String>(why),
{
}

} // verus!
