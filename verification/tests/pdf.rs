use invoicemd_cli::pdf::prepare_html;

#[test]
fn prepare_html_strips_doctype_and_closes_br() {
    let html = "<!DOCTYPE html>\n<html><body>A<br>B</body></html>";
    assert_eq!(prepare_html(html), "<html><body>A<br />B</body></html>");
}

#[test]
fn prepare_html_keeps_other_leading_tags() {
    assert_eq!(prepare_html("  <html>x</html>"), "<html>x</html>");
    assert_eq!(prepare_html("<!doctype HTML>  <p>"), "<p>");
    assert_eq!(prepare_html("<!doctype xml><p>"), "<!doctype xml><p>");
    assert_eq!(prepare_html("no tags"), "no tags");
}

#[test]
fn prepare_html_closes_every_br() {
    assert_eq!(prepare_html("<br><br><<br>>"), "<br /><br /><<br />>");
    assert_eq!(prepare_html("<br />"), "<br />");
    assert!(!prepare_html("a<br>b<br>").contains("<br>"));
}
