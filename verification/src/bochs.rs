//! This module allows booting with Bochs.
use vstd::prelude::*;
use vstd::string::*;

verus! {

/// The configuration up to the path of the firmware.
pub open spec fn bochsrc_head() -> Seq<char> {
    "\n# partly taken from https://forum.osdev.org/viewtopic.php?f=1&t=33440\ndisplay_library: x\nmegs: 768\nromimage: file=\""@
}

/// The configuration between the path of the firmware and that of the image.
pub open spec fn bochsrc_middle() -> Seq<char> {
    "\", address=0x0, options=none\nvgaromimage: file=\"/usr/share/bochs/VGABIOS-lgpl-latest\"\nata0: enabled=1, ioaddr1=0x1f0, ioaddr2=0x3f0, irq=14\nata0-master: type=disk, path=\""@
}

/// The configuration between the path of the image and the switch for GDB.
pub open spec fn bochsrc_tail() -> Seq<char> {
    "\", mode=flat, cylinders=0, heads=0, spt=0, sect_size=512, model=\"Generic 1234\", biosdetect=auto, translation=auto\nata0-slave: type=none\npci: enabled=1, chipset=i440fx, slot1=cirrus\nvga: extension=cirrus, update_freq=5, realtime=1\nprint_timestamps: enabled=0\nport_e9_hack: enabled=0\nprivate_colormap: enabled=0\nclock: sync=none, time0=local, rtc_sync=0\nlog: -\nlogprefix: %t%e%d\ndebug: action=ignore\ninfo: action=report\nerror: action=report\npanic: action=ask\nkeyboard: type=mf, serial_delay=250, paste_delay=100000, user_shortcut=none\nmouse: type=ps2, enabled=0, toggle=ctrl+mbutton\nsound: waveoutdrv=win, waveout=none, waveindrv=win, wavein=none, midioutdrv=win, midiout=none\nspeaker: enabled=1, mode=sound\nparport1: enabled=1, file=none\ncom1: enabled=1, mode=null\ngdbstub: enabled="@
}

/// The end of the configuration.
pub open spec fn bochsrc_end() -> Seq<char> {
    ", port=1234, text_base=0, data_base=0, bss_base=0\n"@
}

/// The switch for GDB as it is written.
pub open spec fn switch_text(on: bool) -> Seq<char> {
    if on {
        "1"@
    } else {
        "0"@
    }
}

/// The configuration for Bochs.
pub open spec fn bochsrc_text(ovmf: Seq<char>, image: Seq<char>, gdb: bool) -> Seq<char> {
    bochsrc_head() + ovmf + bochsrc_middle() + image + bochsrc_tail() + switch_text(gdb)
        + bochsrc_end()
}

/// Generate a appropriate bochrs file: a machine with the firmware at
/// `ovmf` as its ROM and the image as its disk, that waits for GDB if
/// `gdb` is set.
pub fn bochsrc(ovmf: &str, image: &str, gdb: bool) -> (r: String)
    ensures
        r@ == bochsrc_text(ovmf@, image@, gdb),
{
    let mut file: String = String::from_str(
        "\n# partly taken from https://forum.osdev.org/viewtopic.php?f=1&t=33440\ndisplay_library: x\nmegs: 768\nromimage: file=\"",
    );
    file.append(ovmf);
    file.append(
        "\", address=0x0, options=none\nvgaromimage: file=\"/usr/share/bochs/VGABIOS-lgpl-latest\"\nata0: enabled=1, ioaddr1=0x1f0, ioaddr2=0x3f0, irq=14\nata0-master: type=disk, path=\"",
    );
    file.append(image);
    file.append(
        "\", mode=flat, cylinders=0, heads=0, spt=0, sect_size=512, model=\"Generic 1234\", biosdetect=auto, translation=auto\nata0-slave: type=none\npci: enabled=1, chipset=i440fx, slot1=cirrus\nvga: extension=cirrus, update_freq=5, realtime=1\nprint_timestamps: enabled=0\nport_e9_hack: enabled=0\nprivate_colormap: enabled=0\nclock: sync=none, time0=local, rtc_sync=0\nlog: -\nlogprefix: %t%e%d\ndebug: action=ignore\ninfo: action=report\nerror: action=report\npanic: action=ask\nkeyboard: type=mf, serial_delay=250, paste_delay=100000, user_shortcut=none\nmouse: type=ps2, enabled=0, toggle=ctrl+mbutton\nsound: waveoutdrv=win, waveout=none, waveindrv=win, wavein=none, midioutdrv=win, midiout=none\nspeaker: enabled=1, mode=sound\nparport1: enabled=1, file=none\ncom1: enabled=1, mode=null\ngdbstub: enabled=",
    );
    if gdb {
        file.append("1");
    } else {
        file.append("0");
    }
    file.append(", port=1234, text_base=0, data_base=0, bss_base=0\n");
    file
}

} // verus!
