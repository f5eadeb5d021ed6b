[package]
name = "nvda_rust"
version = "0.1.0"
edition = "2021"
publish = false

[dependencies]
unicode-segmentation = "=1.13.3"
log = "=0.4.35"
pyo3 = "=0.30.1"
pyo3-log = "=0.13.5"

[dependencies.windows]
version = "=0.58.0"
features = [
    "Foundation",
    "Foundation_Collections",
    "Foundation_Metadata",
    "Media",
    "Media_SpeechSynthesis",
    "Storage_Streams",
    "Win32_Devices_Bluetooth",
    "Win32_Devices_DeviceAndDriverInstallation",
    "Win32_Devices_HumanInterfaceDevice",
    "Win32_Devices_Properties",
    "Win32_Foundation",
    "Win32_Graphics_Gdi",
    "Win32_Graphics_GdiPlus",
    "Win32_Security",
    "Win32_Storage_FileSystem",
    "Win32_System_Com",
    "Win32_System_Com_StructuredStorage",
    "Win32_System_Diagnostics_Debug",
    "Win32_System_Kernel",
    "Win32_System_Memory",
    "Win32_System_Ole",
    "Win32_System_Registry",
    "Win32_System_Threading",
    "Win32_System_WinRT",
    "Win32_UI_WindowsAndMessaging",
]
