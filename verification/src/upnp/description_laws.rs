//! What the description of the device says.

use vstd::prelude::*;
use crate::reading::{
    clear_of, differs_soon, lacks, lemma_clear_joined, lemma_clear_plain, lemma_clear_text,
    lemma_joined, lemma_lacks_joined, lemma_value_behind, value_behind,
};
use crate::text::starts_at;
use crate::upnp::description::{described, DEVICE_DESCRIPTION};
use crate::web::laws::lemma_replaced;
use crate::xml::escape_xml_spec;
use crate::xml_laws::{
    law_escaped_has_no_markup, law_escaped_stands_for_the_text, unescaped,
};

verus! {

/// What stands before the name of the device.
spec fn front() -> Seq<char> {
    "<?xml version=\"1.0\"?>
<root xmlns=\"urn:schemas-upnp-org:device-1-0\">
  <specVersion><major>1</major><minor>0</minor></specVersion>
  <device>
    <deviceType>urn:schemas-upnp-org:device:MediaRenderer:1</deviceType>
    <friendlyName>"@
}

/// What stands between the name of the device and its unique name.
spec fn middle() -> Seq<char> {
    "</friendlyName>
    <manufacturer>mini-mdr</manufacturer>
    <modelName>mini-mdr</modelName>
    <UDN>"@
}

/// What stands behind the unique name of the device.
spec fn back() -> Seq<char> {
    "</UDN>
    <serviceList>
      <service>
        <serviceType>urn:schemas-upnp-org:service:AVTransport:1</serviceType>
        <serviceId>urn:upnp-org:serviceId:AVTransport</serviceId>
        <SCPDURL>/av_transport.xml</SCPDURL>
        <controlURL>/AVTransport/control</controlURL>
        <eventSubURL>/AVTransport/event</eventSubURL>
      </service>
      <service>
        <serviceType>urn:schemas-upnp-org:service:RenderingControl:1</serviceType>
        <serviceId>urn:upnp-org:serviceId:RenderingControl</serviceId>
        <SCPDURL>/rendering_control.xml</SCPDURL>
        <controlURL>/RenderingControl/control</controlURL>
        <eventSubURL>/RenderingControl/event</eventSubURL>
      </service>
      <service>
        <serviceType>urn:schemas-upnp-org:service:ConnectionManager:1</serviceType>
        <serviceId>urn:upnp-org:serviceId:ConnectionManager</serviceId>
        <SCPDURL>/connection_manager.xml</SCPDURL>
        <controlURL>/ConnectionManager/control</controlURL>
        <eventSubURL>/ConnectionManager/event</eventSubURL>
      </service>
    </serviceList>
  </device>
</root>
"@
}

/// The description is those, with the two names between them.
#[verifier::rlimit(100)]
proof fn lemma_description_shape()
    ensures
        DEVICE_DESCRIPTION@ == front() + "{{DEVICE_NAME}}"@ + middle() + "{{UDN}}"@ + back(),
{
    reveal_strlit("<?xml version=\"1.0\"?>
<root xmlns=\"urn:schemas-upnp-org:device-1-0\">
  <specVersion><major>1</major><minor>0</minor></specVersion>
  <device>
    <deviceType>urn:schemas-upnp-org:device:MediaRenderer:1</deviceType>
    <friendlyName>{{DEVICE_NAME}}</friendlyName>
    <manufacturer>mini-mdr</manufacturer>
    <modelName>mini-mdr</modelName>
    <UDN>{{UDN}}</UDN>
    <serviceList>
      <service>
        <serviceType>urn:schemas-upnp-org:service:AVTransport:1</serviceType>
        <serviceId>urn:upnp-org:serviceId:AVTransport</serviceId>
        <SCPDURL>/av_transport.xml</SCPDURL>
        <controlURL>/AVTransport/control</controlURL>
        <eventSubURL>/AVTransport/event</eventSubURL>
      </service>
      <service>
        <serviceType>urn:schemas-upnp-org:service:RenderingControl:1</serviceType>
        <serviceId>urn:upnp-org:serviceId:RenderingControl</serviceId>
        <SCPDURL>/rendering_control.xml</SCPDURL>
        <controlURL>/RenderingControl/control</controlURL>
        <eventSubURL>/RenderingControl/event</eventSubURL>
      </service>
      <service>
        <serviceType>urn:schemas-upnp-org:service:ConnectionManager:1</serviceType>
        <serviceId>urn:upnp-org:serviceId:ConnectionManager</serviceId>
        <SCPDURL>/connection_manager.xml</SCPDURL>
        <controlURL>/ConnectionManager/control</controlURL>
        <eventSubURL>/ConnectionManager/event</eventSubURL>
      </service>
    </serviceList>
  </device>
</root>
");
    reveal_strlit("<?xml version=\"1.0\"?>
<root xmlns=\"urn:schemas-upnp-org:device-1-0\">
  <specVersion><major>1</major><minor>0</minor></specVersion>
  <device>
    <deviceType>urn:schemas-upnp-org:device:MediaRenderer:1</deviceType>
    <friendlyName>");
    reveal_strlit("</friendlyName>
    <manufacturer>mini-mdr</manufacturer>
    <modelName>mini-mdr</modelName>
    <UDN>");
    reveal_strlit("</UDN>
    <serviceList>
      <service>
        <serviceType>urn:schemas-upnp-org:service:AVTransport:1</serviceType>
        <serviceId>urn:upnp-org:serviceId:AVTransport</serviceId>
        <SCPDURL>/av_transport.xml</SCPDURL>
        <controlURL>/AVTransport/control</controlURL>
        <eventSubURL>/AVTransport/event</eventSubURL>
      </service>
      <service>
        <serviceType>urn:schemas-upnp-org:service:RenderingControl:1</serviceType>
        <serviceId>urn:upnp-org:serviceId:RenderingControl</serviceId>
        <SCPDURL>/rendering_control.xml</SCPDURL>
        <controlURL>/RenderingControl/control</controlURL>
        <eventSubURL>/RenderingControl/event</eventSubURL>
      </service>
      <service>
        <serviceType>urn:schemas-upnp-org:service:ConnectionManager:1</serviceType>
        <serviceId>urn:upnp-org:serviceId:ConnectionManager</serviceId>
        <SCPDURL>/connection_manager.xml</SCPDURL>
        <controlURL>/ConnectionManager/control</controlURL>
        <eventSubURL>/ConnectionManager/event</eventSubURL>
      </service>
    </serviceList>
  </device>
</root>
");
    reveal_strlit("{{DEVICE_NAME}}");
    reveal_strlit("{{UDN}}");
    assert(DEVICE_DESCRIPTION@ =~= front() + "{{DEVICE_NAME}}"@ + middle() + "{{UDN}}"@ + back());
}

#[verifier::rlimit(100)]
proof fn lemma_description_plain()
    ensures
        lacks(front(), '{'),
        lacks(middle(), '{'),
        lacks(back(), '{'),
{
    reveal_strlit("<?xml version=\"1.0\"?>
<root xmlns=\"urn:schemas-upnp-org:device-1-0\">
  <specVersion><major>1</major><minor>0</minor></specVersion>
  <device>
    <deviceType>urn:schemas-upnp-org:device:MediaRenderer:1</deviceType>
    <friendlyName>");
    reveal_strlit("</friendlyName>
    <manufacturer>mini-mdr</manufacturer>
    <modelName>mini-mdr</modelName>
    <UDN>");
    reveal_strlit("</UDN>
    <serviceList>
      <service>
        <serviceType>urn:schemas-upnp-org:service:AVTransport:1</serviceType>
        <serviceId>urn:upnp-org:serviceId:AVTransport</serviceId>
        <SCPDURL>/av_transport.xml</SCPDURL>
        <controlURL>/AVTransport/control</controlURL>
        <eventSubURL>/AVTransport/event</eventSubURL>
      </service>
      <service>
        <serviceType>urn:schemas-upnp-org:service:RenderingControl:1</serviceType>
        <serviceId>urn:upnp-org:serviceId:RenderingControl</serviceId>
        <SCPDURL>/rendering_control.xml</SCPDURL>
        <controlURL>/RenderingControl/control</controlURL>
        <eventSubURL>/RenderingControl/event</eventSubURL>
      </service>
      <service>
        <serviceType>urn:schemas-upnp-org:service:ConnectionManager:1</serviceType>
        <serviceId>urn:upnp-org:serviceId:ConnectionManager</serviceId>
        <SCPDURL>/connection_manager.xml</SCPDURL>
        <controlURL>/ConnectionManager/control</controlURL>
        <eventSubURL>/ConnectionManager/event</eventSubURL>
      </service>
    </serviceList>
  </device>
</root>
");
}

#[verifier::rlimit(60)]
proof fn lemma_description_marks()
    ensures
        front() == "<?xml version=\"1.0\"?>
<root xmlns=\"urn:schemas-upnp-org:device-1-0\">
  <specVersion><major>1</major><minor>0</minor></specVersion>
  <device>
    <deviceType>urn:schemas-upnp-org:device:MediaRenderer:1</deviceType>
    "@ + "<friendlyName>"@,
        clear_of("<?xml version=\"1.0\"?>
<root xmlns=\"urn:schemas-upnp-org:device-1-0\">
  <specVersion><major>1</major><minor>0</minor></specVersion>
  <device>
    <deviceType>urn:schemas-upnp-org:device:MediaRenderer:1</deviceType>
    "@, "<friendlyName>"@),
        middle() == "</friendlyName>
    <manufacturer>mini-mdr</manufacturer>
    <modelName>mini-mdr</modelName>
    "@ + "<UDN>"@,
        clear_of("</friendlyName>
    <manufacturer>mini-mdr</manufacturer>
    <modelName>mini-mdr</modelName>
    "@, "<UDN>"@),
        clear_of(front(), "<UDN>"@),
        middle().len() > 0 && middle()[0] == '<',
        back().len() > 0 && back()[0] == '<',
{
    reveal_strlit("<?xml version=\"1.0\"?>
<root xmlns=\"urn:schemas-upnp-org:device-1-0\">
  <specVersion><major>1</major><minor>0</minor></specVersion>
  <device>
    <deviceType>urn:schemas-upnp-org:device:MediaRenderer:1</deviceType>
    <friendlyName>");
    reveal_strlit("</friendlyName>
    <manufacturer>mini-mdr</manufacturer>
    <modelName>mini-mdr</modelName>
    <UDN>");
    reveal_strlit("</UDN>
    <serviceList>
      <service>
        <serviceType>urn:schemas-upnp-org:service:AVTransport:1</serviceType>
        <serviceId>urn:upnp-org:serviceId:AVTransport</serviceId>
        <SCPDURL>/av_transport.xml</SCPDURL>
        <controlURL>/AVTransport/control</controlURL>
        <eventSubURL>/AVTransport/event</eventSubURL>
      </service>
      <service>
        <serviceType>urn:schemas-upnp-org:service:RenderingControl:1</serviceType>
        <serviceId>urn:upnp-org:serviceId:RenderingControl</serviceId>
        <SCPDURL>/rendering_control.xml</SCPDURL>
        <controlURL>/RenderingControl/control</controlURL>
        <eventSubURL>/RenderingControl/event</eventSubURL>
      </service>
      <service>
        <serviceType>urn:schemas-upnp-org:service:ConnectionManager:1</serviceType>
        <serviceId>urn:upnp-org:serviceId:ConnectionManager</serviceId>
        <SCPDURL>/connection_manager.xml</SCPDURL>
        <controlURL>/ConnectionManager/control</controlURL>
        <eventSubURL>/ConnectionManager/event</eventSubURL>
      </service>
    </serviceList>
  </device>
</root>
");
    reveal_strlit("<?xml version=\"1.0\"?>
<root xmlns=\"urn:schemas-upnp-org:device-1-0\">
  <specVersion><major>1</major><minor>0</minor></specVersion>
  <device>
    <deviceType>urn:schemas-upnp-org:device:MediaRenderer:1</deviceType>
    ");
    reveal_strlit("</friendlyName>
    <manufacturer>mini-mdr</manufacturer>
    <modelName>mini-mdr</modelName>
    ");
    reveal_strlit("<friendlyName>");
    reveal_strlit("<UDN>");
    assert(front() =~= "<?xml version=\"1.0\"?>
<root xmlns=\"urn:schemas-upnp-org:device-1-0\">
  <specVersion><major>1</major><minor>0</minor></specVersion>
  <device>
    <deviceType>urn:schemas-upnp-org:device:MediaRenderer:1</deviceType>
    "@ + "<friendlyName>"@);
    assert(middle() =~= "</friendlyName>
    <manufacturer>mini-mdr</manufacturer>
    <modelName>mini-mdr</modelName>
    "@ + "<UDN>"@);
    assert forall|j: int| 0 <= j < "<?xml version=\"1.0\"?>
<root xmlns=\"urn:schemas-upnp-org:device-1-0\">
  <specVersion><major>1</major><minor>0</minor></specVersion>
  <device>
    <deviceType>urn:schemas-upnp-org:device:MediaRenderer:1</deviceType>
    "@.len() implies #[trigger] differs_soon(
        "<?xml version=\"1.0\"?>
<root xmlns=\"urn:schemas-upnp-org:device-1-0\">
  <specVersion><major>1</major><minor>0</minor></specVersion>
  <device>
    <deviceType>urn:schemas-upnp-org:device:MediaRenderer:1</deviceType>
    "@,
        "<friendlyName>"@,
        j,
    ) by {}
    lemma_clear_text("<?xml version=\"1.0\"?>
<root xmlns=\"urn:schemas-upnp-org:device-1-0\">
  <specVersion><major>1</major><minor>0</minor></specVersion>
  <device>
    <deviceType>urn:schemas-upnp-org:device:MediaRenderer:1</deviceType>
    "@, "<friendlyName>"@);
    assert forall|j: int| 0 <= j < "</friendlyName>
    <manufacturer>mini-mdr</manufacturer>
    <modelName>mini-mdr</modelName>
    "@.len() implies #[trigger] differs_soon(
        "</friendlyName>
    <manufacturer>mini-mdr</manufacturer>
    <modelName>mini-mdr</modelName>
    "@,
        "<UDN>"@,
        j,
    ) by {}
    lemma_clear_text("</friendlyName>
    <manufacturer>mini-mdr</manufacturer>
    <modelName>mini-mdr</modelName>
    "@, "<UDN>"@);
    assert forall|j: int| 0 <= j < front().len() implies #[trigger] differs_soon(
        front(),
        "<UDN>"@,
        j,
    ) by {}
    lemma_clear_text(front(), "<UDN>"@);
}

/// The description with both names is what stands before, between and behind them, and the names
/// themselves, escaped.
proof fn lemma_described(name: Seq<char>, udn: Seq<char>)
    requires
        lacks(escape_xml_spec(name), '{'),
    ensures
        described(name, udn) == front() + escape_xml_spec(name) + middle() + escape_xml_spec(udn)
            + back(),
{
    let a = front();
    let b = middle();
    let c = back();
    let n = "{{DEVICE_NAME}}"@;
    let u = "{{UDN}}"@;
    let x = escape_xml_spec(name);
    let y = escape_xml_spec(udn);
    lemma_description_shape();
    lemma_description_plain();
    assert(n.len() > 0 && n[0] == '{' && u.len() > 0 && u[0] == '{' && clear_of(u, n)) by {
        reveal_strlit("{{DEVICE_NAME}}");
        reveal_strlit("{{UDN}}");
        assert forall|j: int| 0 <= j < u.len() implies #[trigger] differs_soon(u, n, j) by {}
        lemma_clear_text(u, n);
    }
    lemma_clear_plain(a, n);
    lemma_clear_plain(b, n);
    lemma_clear_plain(c, n);
    lemma_clear_joined(b, u, n);
    lemma_clear_joined(b + u, c, n);
    let rest = b + u + c;
    lemma_nowhere(rest, n);
    lemma_replaced(a, n, rest, x);
    lemma_joined(a + n, b + u, c);
    lemma_joined(a + n, b, u);
    lemma_joined(a + x, b + u, c);
    lemma_joined(a + x, b, u);
    let half = a + x + b;
    lemma_lacks_joined(a, x, '{');
    lemma_lacks_joined(a + x, b, '{');
    lemma_clear_plain(half, u);
    lemma_clear_plain(c, u);
    lemma_nowhere(c, u);
    lemma_replaced(half, u, c, y);
}

/// In a text in which no mark begins there is none.
proof fn lemma_nowhere(s: Seq<char>, mark: Seq<char>)
    requires
        mark.len() > 0,
        clear_of(s, mark),
    ensures
        forall|j: int| !#[trigger] starts_at(s, mark, j),
{
    assert forall|j: int| !#[trigger] starts_at(s, mark, j) by {
        assert(s + Seq::<char>::empty() =~= s);
        if 0 <= j < s.len() {
            assert(!starts_at(s + Seq::<char>::empty(), mark, j));
        }
    }
}

/// The description, read back, says the name of the device and its unique name.
pub proof fn law_description_names_the_device(name: Seq<char>, udn: Seq<char>)
    requires
        lacks(escape_xml_spec(name), '{'),
    ensures
        value_behind(described(name, udn), "<friendlyName>"@, '<') matches Some(text) && unescaped(
            text,
        ) == name,
        value_behind(described(name, udn), "<UDN>"@, '<') matches Some(text) && unescaped(text)
            == udn,
{
    let a = front();
    let b = middle();
    let c = back();
    let x = escape_xml_spec(name);
    let y = escape_xml_spec(udn);
    lemma_described(name, udn);
    lemma_description_marks();
    law_escaped_has_no_markup(name);
    law_escaped_has_no_markup(udn);
    assert(lacks(x, '<') && lacks(y, '<'));
    law_escaped_stands_for_the_text(name);
    law_escaped_stands_for_the_text(udn);
    let start = "<?xml version=\"1.0\"?>
<root xmlns=\"urn:schemas-upnp-org:device-1-0\">
  <specVersion><major>1</major><minor>0</minor></specVersion>
  <device>
    <deviceType>urn:schemas-upnp-org:device:MediaRenderer:1</deviceType>
    "@;
    let more = b.skip(1) + y + c;
    lemma_value_behind(start, "<friendlyName>"@, x, '<', more);
    assert(b =~= seq!['<'] + b.skip(1));
    assert(c =~= seq!['<'] + c.skip(1));
    assert(a + x + b + y + c =~= start + "<friendlyName>"@ + x + seq!['<'] + more);
    let between = "</friendlyName>
    <manufacturer>mini-mdr</manufacturer>
    <modelName>mini-mdr</modelName>
    "@;
    let mark = "<UDN>"@;
    assert(clear_of(x, mark)) by {
        reveal_strlit("<UDN>");
        lemma_clear_plain(x, mark);
    }
    lemma_clear_joined(a, x, mark);
    lemma_clear_joined(a + x, between, mark);
    lemma_value_behind(a + x + between, mark, y, '<', c.skip(1));
    assert(a + x + b + y + c =~= a + x + between + mark + y + seq!['<'] + c.skip(1));
}

} // verus!
