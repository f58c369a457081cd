# COM Port Notifier

Shows a toast when a COM port appears on a Windows machine, with a button that opens PuTTY on it.

- `src/` is the verified library: reading port names out of registry replies, finding what a
  device notification changed, delivering events, the steps of the watcher thread, activation
  arguments and the text of toasts.
- `app/` is the program around it: the Win32 and WinRT calls, the thread and `main`.
- `tests/` runs the library on concrete values.
